use vstd::prelude::*;

use crate::downloads::{job_for, make_job, DownloadJob};
use crate::model::{
    CheckSummary, DownloadProgress, EpisodeRecord, EpisodeStatus, FeedCheckSummary, FeedSubscription,
    RetentionSummary,
};
use crate::text::same_text;

verus! {

// ---------------------------------------------------------------------------
// Starting a feed check
// ---------------------------------------------------------------------------

/// A fresh summary for checking `feed`.
pub fn start_feed_check(feed: &FeedSubscription) -> (r: FeedCheckSummary)
    ensures
        r.feed_id == feed.id,
        r.feed_title == feed.normalized_title,
        r.discovered == 0,
        r.queued == 0,
        r.downloaded == 0,
        r.skipped_initial == 0,
        r.failed == 0,
        r.deleted_by_retention == 0,
        r.errors@.len() == 0,
{
    FeedCheckSummary {
        feed_id: feed.id.clone(),
        feed_title: feed.normalized_title.clone(),
        discovered: 0,
        queued: 0,
        downloaded: 0,
        skipped_initial: 0,
        failed: 0,
        deleted_by_retention: 0,
        errors: Vec::new(),
    }
}

/// Records a step of a feed check that failed: one more failure, and its text.
pub fn record_check_failure(summary: &mut FeedCheckSummary, error: String)
    requires
        old(summary).failed < usize::MAX,
    ensures
        final(summary).failed == old(summary).failed + 1,
        final(summary).errors@ == old(summary).errors@.push(error),
        final(summary).feed_id == old(summary).feed_id,
        final(summary).feed_title == old(summary).feed_title,
        final(summary).discovered == old(summary).discovered,
        final(summary).queued == old(summary).queued,
        final(summary).downloaded == old(summary).downloaded,
        final(summary).skipped_initial == old(summary).skipped_initial,
        final(summary).deleted_by_retention == old(summary).deleted_by_retention,
{
    summary.failed = summary.failed + 1;
    summary.errors.push(error);
}

/// The number of episodes kept (and, on a first check, downloaded) for a feed: its own
/// limit, else the default.
pub open spec fn feed_limit(feed: FeedSubscription, default_limit: u32) -> nat {
    match feed.retention_limit {
        Some(l) => l as nat,
        None => default_limit as nat,
    }
}

pub fn initial_download_limit(feed: &FeedSubscription, default_limit: u32) -> (r: usize)
    ensures
        r == feed_limit(*feed, default_limit),
{
    match feed.retention_limit {
        Some(l) => l as usize,
        None => default_limit as usize,
    }
}

/// A feed is checked for the first time when it has no stored episodes.
pub fn is_first_run(stored_episodes: i64) -> (r: bool)
    ensures
        r == (stored_episodes == 0),
{
    stored_episodes == 0
}

// ---------------------------------------------------------------------------
// First check of a feed
// ---------------------------------------------------------------------------

/// On a first check, the `index`-th newest episode is downloaded when it is among the
/// newest `limit`, and skipped otherwise.
pub open spec fn first_run_status(index: int, limit: nat) -> EpisodeStatus {
    if index < limit {
        EpisodeStatus::Pending
    } else {
        EpisodeStatus::SkippedInitial
    }
}

/// The statuses the episodes of a first check are stored with, newest first.
pub fn plan_first_run(count: usize, limit: usize) -> (r: Vec<EpisodeStatus>)
    ensures
        r@.len() == count,
        forall|i: int| 0 <= i < count ==> #[trigger] r@[i] == first_run_status(i, limit as nat),
{
    let mut r: Vec<EpisodeStatus> = Vec::new();
    let mut i: usize = 0;
    while i < count
        invariant
            i <= count,
            r@.len() == i,
            forall|k: int| 0 <= k < i ==> #[trigger] r@[k] == first_run_status(k, limit as nat),
        decreases count - i,
    {
        if i < limit {
            r.push(EpisodeStatus::Pending);
        } else {
            r.push(EpisodeStatus::SkippedInitial);
        }
        i = i + 1;
    }
    r
}

/// How many of the first `n` positions a first check downloads.
pub open spec fn first_run_downloads(n: nat, limit: nat) -> nat
    decreases n,
{
    if n == 0 {
        0
    } else {
        first_run_downloads((n - 1) as nat, limit) + if first_run_status(n - 1, limit)
            == EpisodeStatus::Pending {
            1nat
        } else {
            0nat
        }
    }
}

/// A first check downloads the newest `limit` episodes (all of them when there are fewer)
/// and marks every older one skipped: the downloaded ones are exactly a prefix of the
/// newest-first list, `min(n, limit)` long.
pub proof fn lemma_first_run_downloads_newest(n: nat, limit: nat)
    ensures
        first_run_downloads(n, limit) == if n < limit { n } else { limit },
        forall|i: int| 0 <= i < n ==> (#[trigger] first_run_status(i, limit) == EpisodeStatus::Pending
            <==> i < limit),
        forall|i: int| 0 <= i < n ==> (#[trigger] first_run_status(i, limit) == EpisodeStatus::SkippedInitial
            <==> i >= limit),
    decreases n,
{
    if n > 0 {
        lemma_first_run_downloads_newest((n - 1) as nat, limit);
    }
}

/// A later check downloads again only what is not settled: pending and failed episodes
/// are queued, downloaded, skipped and deleted ones are left alone, and unknown ones are
/// stored and queued. So a second check never downloads an episode twice.
pub proof fn lemma_recheck_leaves_settled_episodes(status: EpisodeStatus)
    ensures
        action_for(Some(status)) == ExistingEpisodeAction::Queue <==> (status == EpisodeStatus::Pending
            || status == EpisodeStatus::Failed),
        (status == EpisodeStatus::Downloaded || status == EpisodeStatus::SkippedInitial || status
            == EpisodeStatus::Deleted) ==> action_for(Some(status)) == ExistingEpisodeAction::Keep,
        action_for(None) == ExistingEpisodeAction::Insert,
{
}

/// How storing one episode went.
pub type InsertOutcome = Result<EpisodeRecord, String>;

/// The job a stored episode of a first check gives: one for each episode stored as pending.
pub open spec fn first_run_job(feed: FeedSubscription, o: (EpisodeStatus, InsertOutcome)) -> Option<DownloadJob> {
    if o.0 == EpisodeStatus::Pending && o.1 is Ok {
        Some(job_for(feed, o.1->Ok_0))
    } else {
        None
    }
}

/// The error text of an outcome that failed.
pub open spec fn insert_error(o: (EpisodeStatus, InsertOutcome)) -> Option<String> {
    match o.1 {
        Err(e) => Some(e),
        Ok(_) => None,
    }
}

pub open spec fn first_run_job_fn(feed: FeedSubscription) -> spec_fn((EpisodeStatus, InsertOutcome)) -> Option<DownloadJob> {
    |o: (EpisodeStatus, InsertOutcome)| first_run_job(feed, o)
}

pub open spec fn insert_error_fn() -> spec_fn((EpisodeStatus, InsertOutcome)) -> Option<String> {
    |o: (EpisodeStatus, InsertOutcome)| insert_error(o)
}

pub open spec fn insert_skipped_fn() -> spec_fn((EpisodeStatus, InsertOutcome)) -> Option<()> {
    |o: (EpisodeStatus, InsertOutcome)| insert_skipped(o)
}

/// An outcome stored as skipped.
pub open spec fn insert_skipped(o: (EpisodeStatus, InsertOutcome)) -> Option<()> {
    if o.0 != EpisodeStatus::Pending && o.1 is Ok {
        Some(())
    } else {
        None
    }
}

/// A first check whose episodes were all stored, newest first, with the statuses
/// `plan_first_run` gives, queues the stored records of the newest `min(n, limit)` in that
/// order, counts the rest as skipped and has no failure.
pub proof fn lemma_first_run_jobs(
    outcomes: Seq<(EpisodeStatus, InsertOutcome)>,
    feed: FeedSubscription,
    limit: nat,
)
    requires
        forall|i: int|
            0 <= i < outcomes.len() ==> (#[trigger] outcomes[i]).0 == first_run_status(i, limit)
                && outcomes[i].1 is Ok,
    ensures
        ({
            let k = if outcomes.len() < limit { outcomes.len() } else { limit };
            &&& outcomes.filter_map(first_run_job_fn(feed)).len() == k
            &&& forall|j: int|
                0 <= j < k ==> #[trigger] outcomes.filter_map(first_run_job_fn(feed))[j]
                    == job_for(feed, outcomes[j].1->Ok_0)
            &&& outcomes.filter_map(insert_skipped_fn()).len() == outcomes.len() - k
            &&& outcomes.filter_map(insert_error_fn()).len() == 0
        }),
    decreases outcomes.len(),
{
    if outcomes.len() > 0 {
        let rest = outcomes.drop_last();
        assert forall|i: int| 0 <= i < rest.len() implies (#[trigger] rest[i]).0 == first_run_status(
            i,
            limit,
        ) && rest[i].1 is Ok by {
            assert(rest[i] == outcomes[i]);
        }
        lemma_first_run_jobs(rest, feed, limit);
        let last = outcomes.last();
        assert(last == outcomes[outcomes.len() - 1]);
        let k0 = if rest.len() < limit { rest.len() } else { limit };
        if outcomes.len() - 1 < limit {
            assert(first_run_job_fn(feed)(last) == Some(job_for(feed, last.1->Ok_0)));
            let jobs = outcomes.filter_map(first_run_job_fn(feed));
            assert(jobs == rest.filter_map(first_run_job_fn(feed)) + seq![job_for(feed, last.1->Ok_0)]);
            assert forall|j: int|
                0 <= j < k0 + 1 implies #[trigger] jobs[j] == job_for(feed, outcomes[j].1->Ok_0) by {
                if j < k0 {
                    assert(jobs[j] == rest.filter_map(first_run_job_fn(feed))[j]);
                    assert(rest[j] == outcomes[j]);
                }
            }
        } else {
            assert(first_run_job_fn(feed)(last) is None);
            assert(insert_skipped_fn()(last) == Some(()));
        }
        assert(insert_error_fn()(last) is None);
    }
}

/// Folds the outcomes of storing the episodes of a first check into the summary: each
/// episode stored as pending is queued for download, each stored as skipped is counted as
/// skipped, each that could not be stored is a failure with its text.
pub fn apply_first_run(
    summary: &mut FeedCheckSummary,
    feed: &FeedSubscription,
    outcomes: Vec<(EpisodeStatus, InsertOutcome)>,
) -> (jobs: Vec<DownloadJob>)
    requires
        old(summary).queued + outcomes@.len() <= usize::MAX,
        old(summary).skipped_initial + outcomes@.len() <= usize::MAX,
        old(summary).failed + outcomes@.len() <= usize::MAX,
    ensures
        jobs@ == outcomes@.filter_map(first_run_job_fn(*feed)),
        final(summary).queued == old(summary).queued + jobs@.len(),
        final(summary).skipped_initial == old(summary).skipped_initial + outcomes@.filter_map(insert_skipped_fn()).len(),
        final(summary).failed == old(summary).failed + outcomes@.filter_map(insert_error_fn()).len(),
        final(summary).errors@ == old(summary).errors@ + outcomes@.filter_map(insert_error_fn()),
        jobs@.len() + outcomes@.filter_map(insert_skipped_fn()).len()
            + outcomes@.filter_map(insert_error_fn()).len()
            == outcomes@.len(),
        final(summary).feed_id == old(summary).feed_id,
        final(summary).feed_title == old(summary).feed_title,
        final(summary).discovered == old(summary).discovered,
        final(summary).downloaded == old(summary).downloaded,
        final(summary).deleted_by_retention == old(summary).deleted_by_retention,
{
    
    let ghost s0 = *old(summary);
    let mut jobs: Vec<DownloadJob> = Vec::new();
    let mut i: usize = 0;
    while i < outcomes.len()
        invariant
            i <= outcomes@.len(),
            s0 == *old(summary),
            s0.queued + outcomes@.len() <= usize::MAX,
            s0.skipped_initial + outcomes@.len() <= usize::MAX,
            s0.failed + outcomes@.len() <= usize::MAX,
            jobs@ == outcomes@.take(i as int).filter_map(first_run_job_fn(*feed)),
            summary.queued == s0.queued + jobs@.len(),
            summary.skipped_initial == s0.skipped_initial + outcomes@.take(i as int).filter_map(insert_skipped_fn()).len(),
            summary.failed == s0.failed + outcomes@.take(i as int).filter_map(insert_error_fn()).len(),
            summary.errors@ == s0.errors@ + outcomes@.take(i as int).filter_map(insert_error_fn()),
            jobs@.len() + outcomes@.take(i as int).filter_map(insert_skipped_fn()).len() + outcomes@.take(
                i as int,
            ).filter_map(insert_error_fn()).len() == i,
            summary.feed_id == s0.feed_id,
            summary.feed_title == s0.feed_title,
            summary.discovered == s0.discovered,
            summary.downloaded == s0.downloaded,
            summary.deleted_by_retention == s0.deleted_by_retention,
        decreases outcomes@.len() - i,
    {
        proof {
            outcomes@.lemma_filter_map_take_succ(first_run_job_fn(*feed), i as int);
            outcomes@.lemma_filter_map_take_succ(insert_skipped_fn(), i as int);
            outcomes@.lemma_filter_map_take_succ(insert_error_fn(), i as int);
        }
        let ghost jobs0 = jobs@;
        let ghost errors0 = summary.errors@;
        let (status, outcome) = &outcomes[i];
        match outcome {
            Ok(record) => {
                if *status == EpisodeStatus::Pending {
                    summary.queued = summary.queued + 1;
                    jobs.push(make_job(feed, record.clone()));
                    assert(first_run_job_fn(*feed)(outcomes@[i as int]) == Some(job_for(*feed, *record)));
                    assert(jobs@ =~= jobs0 + seq![job_for(*feed, *record)]);
                } else {
                    summary.skipped_initial = summary.skipped_initial + 1;
                    assert(first_run_job_fn(*feed)(outcomes@[i as int]) is None);
                    assert(insert_skipped_fn()(outcomes@[i as int]) == Some(()));
                }
                assert(insert_error_fn()(outcomes@[i as int]) is None);
            },
            Err(error) => {
                summary.failed = summary.failed + 1;
                summary.errors.push(error.clone());
                assert(first_run_job_fn(*feed)(outcomes@[i as int]) is None);
                assert(insert_skipped_fn()(outcomes@[i as int]) is None);
                assert(insert_error_fn()(outcomes@[i as int]) == Some(*error));
                assert(summary.errors@ =~= s0.errors@ + (outcomes@.take(i as int).filter_map(insert_error_fn()) + seq![*error]));
            },
        }
        i = i + 1;
    }
    assert(outcomes@.take(outcomes@.len() as int) == outcomes@);
    jobs
}

// ---------------------------------------------------------------------------
// Later checks of a feed
// ---------------------------------------------------------------------------

/// What to do with an episode of a feed that was checked before, by what the library holds
/// for its key.
#[derive(Debug, Clone, Copy, PartialEq, Eq, Structural)]
pub enum ExistingEpisodeAction {
    /// Stored but not downloaded yet (pending or failed): download it again.
    Queue,
    /// Stored and settled (downloaded, skipped or deleted): leave it.
    Keep,
    /// Not stored yet: store it as pending and download it.
    Insert,
}

/// Only pending and failed episodes are downloaded again.
pub open spec fn action_for(found: Option<EpisodeStatus>) -> ExistingEpisodeAction {
    match found {
        Some(s) => if s == EpisodeStatus::Pending || s == EpisodeStatus::Failed {
            ExistingEpisodeAction::Queue
        } else {
            ExistingEpisodeAction::Keep
        },
        None => ExistingEpisodeAction::Insert,
    }
}

pub fn existing_episode_action(found: &Option<EpisodeRecord>) -> (r: ExistingEpisodeAction)
    ensures
        r == action_for(
            match found {
                Some(rec) => Some(rec.status),
                None => None,
            },
        ),
{
    match found {
        Some(rec) => {
            if rec.status == EpisodeStatus::Pending || rec.status == EpisodeStatus::Failed {
                ExistingEpisodeAction::Queue
            } else {
                ExistingEpisodeAction::Keep
            }
        },
        None => ExistingEpisodeAction::Insert,
    }
}

/// How looking up (and, for a new key, storing) one episode of a known feed went.
#[derive(Debug)]
pub enum ExistingOutcome {
    /// The episode was already stored.
    Found(EpisodeRecord),
    /// The episode was new and is now stored as pending.
    Inserted(EpisodeRecord),
    /// The lookup or the storing failed.
    Failed(String),
}

/// The job an outcome gives: a stored pending or failed episode, or a newly stored one.
pub open spec fn existing_job(feed: FeedSubscription, o: ExistingOutcome) -> Option<DownloadJob> {
    match o {
        ExistingOutcome::Found(rec) => if action_for(Some(rec.status))
            == ExistingEpisodeAction::Queue {
            Some(job_for(feed, rec))
        } else {
            None
        },
        ExistingOutcome::Inserted(rec) => Some(job_for(feed, rec)),
        ExistingOutcome::Failed(_) => None,
    }
}

pub open spec fn existing_error(o: ExistingOutcome) -> Option<String> {
    match o {
        ExistingOutcome::Failed(e) => Some(e),
        _ => None,
    }
}

pub open spec fn existing_job_fn(feed: FeedSubscription) -> spec_fn(ExistingOutcome) -> Option<DownloadJob> {
    |o: ExistingOutcome| existing_job(feed, o)
}

pub open spec fn existing_error_fn() -> spec_fn(ExistingOutcome) -> Option<String> {
    |o: ExistingOutcome| existing_error(o)
}

/// Folds the outcomes for the episodes of a known feed into the summary: episodes not
/// downloaded yet and new episodes are queued; settled episodes are left alone; failures
/// are counted with their text.
pub fn apply_existing(
    summary: &mut FeedCheckSummary,
    feed: &FeedSubscription,
    outcomes: Vec<ExistingOutcome>,
) -> (jobs: Vec<DownloadJob>)
    requires
        old(summary).queued + outcomes@.len() <= usize::MAX,
        old(summary).failed + outcomes@.len() <= usize::MAX,
    ensures
        jobs@ == outcomes@.filter_map(existing_job_fn(*feed)),
        final(summary).queued == old(summary).queued + jobs@.len(),
        final(summary).failed == old(summary).failed + outcomes@.filter_map(existing_error_fn()).len(),
        final(summary).errors@ == old(summary).errors@ + outcomes@.filter_map(existing_error_fn()),
        final(summary).skipped_initial == old(summary).skipped_initial,
        final(summary).feed_id == old(summary).feed_id,
        final(summary).feed_title == old(summary).feed_title,
        final(summary).discovered == old(summary).discovered,
        final(summary).downloaded == old(summary).downloaded,
        final(summary).deleted_by_retention == old(summary).deleted_by_retention,
{
    let ghost s0 = *old(summary);
    let mut jobs: Vec<DownloadJob> = Vec::new();
    let mut i: usize = 0;
    while i < outcomes.len()
        invariant
            i <= outcomes@.len(),
            s0 == *old(summary),
            s0.queued + outcomes@.len() <= usize::MAX,
            s0.failed + outcomes@.len() <= usize::MAX,
            jobs@ == outcomes@.take(i as int).filter_map(existing_job_fn(*feed)),
            jobs@.len() <= i,
            outcomes@.take(i as int).filter_map(existing_error_fn()).len() <= i,
            summary.queued == s0.queued + jobs@.len(),
            summary.failed == s0.failed + outcomes@.take(i as int).filter_map(existing_error_fn()).len(),
            summary.errors@ == s0.errors@ + outcomes@.take(i as int).filter_map(existing_error_fn()),
            summary.skipped_initial == s0.skipped_initial,
            summary.feed_id == s0.feed_id,
            summary.feed_title == s0.feed_title,
            summary.discovered == s0.discovered,
            summary.downloaded == s0.downloaded,
            summary.deleted_by_retention == s0.deleted_by_retention,
        decreases outcomes@.len() - i,
    {
        proof {
            outcomes@.lemma_filter_map_take_succ(existing_job_fn(*feed), i as int);
            outcomes@.lemma_filter_map_take_succ(existing_error_fn(), i as int);
        }
        let ghost jobs0 = jobs@;
        match &outcomes[i] {
            ExistingOutcome::Found(record) => {
                if existing_episode_action(&Some(record.clone())) == ExistingEpisodeAction::Queue {
                    summary.queued = summary.queued + 1;
                    jobs.push(make_job(feed, record.clone()));
                    assert(existing_job_fn(*feed)(outcomes@[i as int]) == Some(job_for(*feed, *record)));
                    assert(jobs@ =~= jobs0 + seq![job_for(*feed, *record)]);
                } else {
                    assert(existing_job_fn(*feed)(outcomes@[i as int]) is None);
                }
                assert(existing_error_fn()(outcomes@[i as int]) is None);
            },
            ExistingOutcome::Inserted(record) => {
                summary.queued = summary.queued + 1;
                jobs.push(make_job(feed, record.clone()));
                assert(existing_job_fn(*feed)(outcomes@[i as int]) == Some(job_for(*feed, *record)));
                assert(jobs@ =~= jobs0 + seq![job_for(*feed, *record)]);
                assert(existing_error_fn()(outcomes@[i as int]) is None);
            },
            ExistingOutcome::Failed(error) => {
                summary.failed = summary.failed + 1;
                summary.errors.push(error.clone());
                assert(existing_job_fn(*feed)(outcomes@[i as int]) is None);
                assert(existing_error_fn()(outcomes@[i as int]) == Some(*error));
                assert(summary.errors@ =~= s0.errors@ + (outcomes@.take(i as int).filter_map(existing_error_fn()) + seq![*error]));
            },
        }
        i = i + 1;
    }
    assert(outcomes@.take(outcomes@.len() as int) == outcomes@);
    jobs
}

// ---------------------------------------------------------------------------
// Results of downloads
// ---------------------------------------------------------------------------

/// How one download went: the feed it belongs to, or the feed and the error text.
pub type JobResult = Result<String, (String, String)>;

pub open spec fn result_error(r: JobResult) -> Option<String> {
    match r {
        Err((_, e)) => Some(e),
        Ok(_) => None,
    }
}

pub open spec fn result_ok(r: JobResult) -> Option<String> {
    match r {
        Ok(f) => Some(f),
        Err(_) => None,
    }
}

pub open spec fn result_ok_fn() -> spec_fn(JobResult) -> Option<String> {
    |r: JobResult| result_ok(r)
}

pub open spec fn result_error_fn() -> spec_fn(JobResult) -> Option<String> {
    |r: JobResult| result_error(r)
}

/// Folds the results of a feed's downloads into its summary: each success is a download,
/// each failure is a failure with its text.
pub fn apply_download_results(summary: &mut FeedCheckSummary, results: &Vec<JobResult>)
    requires
        old(summary).downloaded + results@.len() <= usize::MAX,
        old(summary).failed + results@.len() <= usize::MAX,
    ensures
        final(summary).downloaded == old(summary).downloaded + results@.filter_map(result_ok_fn()).len(),
        final(summary).failed == old(summary).failed + results@.filter_map(result_error_fn()).len(),
        final(summary).errors@ == old(summary).errors@ + results@.filter_map(result_error_fn()),
        results@.filter_map(result_ok_fn()).len() + results@.filter_map(result_error_fn()).len() == results@.len(),
        final(summary).queued == old(summary).queued,
        final(summary).skipped_initial == old(summary).skipped_initial,
        final(summary).feed_id == old(summary).feed_id,
        final(summary).feed_title == old(summary).feed_title,
        final(summary).discovered == old(summary).discovered,
        final(summary).deleted_by_retention == old(summary).deleted_by_retention,
{
    let ghost s0 = *old(summary);
    let mut i: usize = 0;
    while i < results.len()
        invariant
            i <= results@.len(),
            s0 == *old(summary),
            s0.downloaded + results@.len() <= usize::MAX,
            s0.failed + results@.len() <= usize::MAX,
            summary.downloaded == s0.downloaded + results@.take(i as int).filter_map(result_ok_fn()).len(),
            summary.failed == s0.failed + results@.take(i as int).filter_map(result_error_fn()).len(),
            summary.errors@ == s0.errors@ + results@.take(i as int).filter_map(result_error_fn()),
            results@.take(i as int).filter_map(result_ok_fn()).len() + results@.take(i as int).filter_map(
                result_error_fn(),
            ).len() == i,
            summary.queued == s0.queued,
            summary.skipped_initial == s0.skipped_initial,
            summary.feed_id == s0.feed_id,
            summary.feed_title == s0.feed_title,
            summary.discovered == s0.discovered,
            summary.deleted_by_retention == s0.deleted_by_retention,
        decreases results@.len() - i,
    {
        proof {
            results@.lemma_filter_map_take_succ(result_ok_fn(), i as int);
            results@.lemma_filter_map_take_succ(result_error_fn(), i as int);
        }
        match &results[i] {
            Ok(f) => {
                summary.downloaded = summary.downloaded + 1;
                assert(result_ok_fn()(results@[i as int]) == Some(*f));
                assert(result_error_fn()(results@[i as int]) is None);
            },
            Err((_, error)) => {
                summary.failed = summary.failed + 1;
                summary.errors.push(error.clone());
                assert(result_ok_fn()(results@[i as int]) is None);
                assert(result_error_fn()(results@[i as int]) == Some(*error));
                assert(summary.errors@ =~= s0.errors@ + (results@.take(i as int).filter_map(result_error_fn()) + seq![*error]));
            },
        }
        i = i + 1;
    }
    assert(results@.take(results@.len() as int) == results@);
}

/// Folds a feed's retention run into its summary: the files it deleted, and its errors;
/// when it could not run, its error.
pub fn apply_feed_retention(
    summary: &mut FeedCheckSummary,
    retention: std::result::Result<RetentionSummary, String>,
)
    requires
        retention matches Ok(r) ==> old(summary).deleted_by_retention + r.files_deleted
            <= usize::MAX,
    ensures
        match retention {
            Ok(r) => final(summary).deleted_by_retention == old(summary).deleted_by_retention
                + r.files_deleted && final(summary).errors@ == old(summary).errors@ + r.errors@,
            Err(e) => final(summary).deleted_by_retention == old(summary).deleted_by_retention
                && final(summary).errors@ == old(summary).errors@.push(e),
        },
        final(summary).queued == old(summary).queued,
        final(summary).downloaded == old(summary).downloaded,
        final(summary).failed == old(summary).failed,
        final(summary).skipped_initial == old(summary).skipped_initial,
        final(summary).feed_id == old(summary).feed_id,
        final(summary).feed_title == old(summary).feed_title,
        final(summary).discovered == old(summary).discovered,
{
    match retention {
        Ok(r) => {
            summary.deleted_by_retention = summary.deleted_by_retention + r.files_deleted;
            let mut errors = r.errors;
            summary.errors.append(&mut errors);
        },
        Err(e) => {
            summary.errors.push(e);
        },
    }
}

// ---------------------------------------------------------------------------
// Checking every feed
// ---------------------------------------------------------------------------

/// The summary of checking `feed_count` feeds, before any is counted.
pub fn start_check_all(feed_count: usize) -> (r: CheckSummary)
    ensures
        r.feeds_checked == feed_count,
        r.discovered == 0,
        r.queued == 0,
        r.downloaded == 0,
        r.skipped_initial == 0,
        r.failed == 0,
        r.deleted_by_retention == 0,
        r.feed_summaries@.len() == 0,
        r.errors@.len() == 0,
        totals_add_up(r),
{
    CheckSummary {
        feeds_checked: feed_count,
        discovered: 0,
        queued: 0,
        downloaded: 0,
        skipped_initial: 0,
        failed: 0,
        deleted_by_retention: 0,
        feed_summaries: Vec::new(),
        errors: Vec::new(),
    }
}

/// The sum of one count over feed summaries.
pub open spec fn count_sum(s: Seq<FeedCheckSummary>, count: spec_fn(FeedCheckSummary) -> int) -> int
    decreases s.len(),
{
    if s.len() == 0 {
        0
    } else {
        count_sum(s.drop_last(), count) + count(s.last())
    }
}

/// Every overall count is the sum of that count over the feed summaries.
pub open spec fn totals_add_up(c: CheckSummary) -> bool {
    &&& c.discovered == count_sum(c.feed_summaries@, |f: FeedCheckSummary| f.discovered as int)
    &&& c.queued == count_sum(c.feed_summaries@, |f: FeedCheckSummary| f.queued as int)
    &&& c.skipped_initial == count_sum(c.feed_summaries@, |f: FeedCheckSummary| f.skipped_initial as int)
    &&& c.downloaded == count_sum(c.feed_summaries@, |f: FeedCheckSummary| f.downloaded as int)
    &&& c.failed == count_sum(c.feed_summaries@, |f: FeedCheckSummary| f.failed as int)
    &&& c.deleted_by_retention == count_sum(
        c.feed_summaries@,
        |f: FeedCheckSummary| f.deleted_by_retention as int,
    )
}

/// Changing one feed summary changes a sum by the difference of that summary's counts.
pub proof fn lemma_count_sum_update(
    s: Seq<FeedCheckSummary>,
    i: int,
    x: FeedCheckSummary,
    count: spec_fn(FeedCheckSummary) -> int,
)
    requires
        0 <= i < s.len(),
    ensures
        count_sum(s.update(i, x), count) == count_sum(s, count) - count(s[i]) + count(x),
    decreases s.len(),
{
    if i == s.len() - 1 {
        assert(s.update(i, x).drop_last() =~= s.drop_last());
    } else {
        lemma_count_sum_update(s.drop_last(), i, x, count);
        assert(s.update(i, x).drop_last() =~= s.drop_last().update(i, x));
    }
}

/// A sum of counts that are never negative is at least each of its terms.
pub proof fn lemma_count_sum_bounds(
    s: Seq<FeedCheckSummary>,
    k: int,
    count: spec_fn(FeedCheckSummary) -> int,
)
    requires
        0 <= k < s.len(),
        forall|i: int| 0 <= i < s.len() ==> count(#[trigger] s[i]) >= 0,
    ensures
        count_sum(s, count) >= count(s[k]),
        count_sum(s, count) >= 0,
    decreases s.len(),
{
    let t = s.drop_last();
    assert forall|i: int| 0 <= i < t.len() implies count(#[trigger] t[i]) >= 0 by {
        assert(t[i] == s[i]);
    }
    assert(count(s[s.len() - 1]) >= 0);
    if k < s.len() - 1 {
        lemma_count_sum_bounds(t, k, count);
        assert(t[k] == s[k]);
    } else if t.len() > 0 {
        lemma_count_sum_bounds(t, 0, count);
    }
}

/// Taking one feed summary out takes its count out of a sum.
pub proof fn lemma_count_sum_remove(
    s: Seq<FeedCheckSummary>,
    i: int,
    count: spec_fn(FeedCheckSummary) -> int,
)
    requires
        0 <= i < s.len(),
    ensures
        count_sum(s, count) == count_sum(s.remove(i), count) + count(s[i]),
    decreases s.len(),
{
    if i == s.len() - 1 {
        assert(s.remove(i) =~= s.drop_last());
    } else {
        lemma_count_sum_remove(s.drop_last(), i, count);
        assert(s.remove(i).drop_last() =~= s.drop_last().remove(i));
        assert(s.remove(i).last() == s.last());
    }
}

/// A sum over feed summaries does not depend on their order.
pub proof fn lemma_count_sum_permutation(
    s: Seq<FeedCheckSummary>,
    t: Seq<FeedCheckSummary>,
    count: spec_fn(FeedCheckSummary) -> int,
)
    requires
        s.to_multiset() == t.to_multiset(),
    ensures
        count_sum(s, count) == count_sum(t, count),
    decreases s.len(),
{
    broadcast use vstd::seq_lib::group_to_multiset_ensures;

    if s.len() == 0 {
        assert(t.len() == t.to_multiset().len());
    } else {
        let x = s.last();
        assert(s.contains(x)) by {
            assert(s[s.len() - 1] == x);
        }
        assert(s.to_multiset().count(x) > 0);
        assert(t.contains(x));
        let j = choose|j: int| 0 <= j < t.len() && t[j] == x;
        assert(s.drop_last() =~= s.remove(s.len() - 1));
        assert(s.drop_last().to_multiset() == t.remove(j).to_multiset());
        lemma_count_sum_permutation(s.drop_last(), t.remove(j), count);
        lemma_count_sum_remove(t, j, count);
    }
}

/// What merging `fs` into `before` gives.
pub open spec fn merged(before: CheckSummary, fs: FeedCheckSummary, after: CheckSummary) -> bool {
    &&& after.discovered == before.discovered + fs.discovered
    &&& after.queued == before.queued + fs.queued
    &&& after.skipped_initial == before.skipped_initial + fs.skipped_initial
    &&& after.failed == before.failed + fs.failed
    &&& after.errors@ == before.errors@ + fs.errors@
    &&& after.feed_summaries@ == before.feed_summaries@.push(fs)
    &&& after.feeds_checked == before.feeds_checked
    &&& after.downloaded == before.downloaded
    &&& after.deleted_by_retention == before.deleted_by_retention
}

/// A full check's overall counts always equal the sums of its feeds' counts: true of a
/// fresh summary, and kept by the merge of every prepared feed summary, which has no
/// downloads or deletions yet.
pub proof fn lemma_merge_keeps_totals(before: CheckSummary, fs: FeedCheckSummary, after: CheckSummary)
    requires
        totals_add_up(before),
        merged(before, fs, after),
        fs.downloaded == 0,
        fs.deleted_by_retention == 0,
    ensures
        totals_add_up(after),
{
    let s = after.feed_summaries@;
    assert(s.drop_last() =~= before.feed_summaries@);
}

/// Adds a prepared feed's summary to the overall one: its counts, its errors, and the
/// summary itself.
pub fn merge_feed_summary(summary: &mut CheckSummary, feed_summary: FeedCheckSummary)
    requires
        old(summary).discovered + feed_summary.discovered <= usize::MAX,
        old(summary).queued + feed_summary.queued <= usize::MAX,
        old(summary).skipped_initial + feed_summary.skipped_initial <= usize::MAX,
        old(summary).failed + feed_summary.failed <= usize::MAX,
    ensures
        merged(*old(summary), feed_summary, *final(summary)),
        final(summary).discovered == old(summary).discovered + feed_summary.discovered,
        final(summary).queued == old(summary).queued + feed_summary.queued,
        final(summary).skipped_initial == old(summary).skipped_initial + feed_summary.skipped_initial,
        final(summary).failed == old(summary).failed + feed_summary.failed,
        final(summary).errors@ == old(summary).errors@ + feed_summary.errors@,
        final(summary).feed_summaries@ == old(summary).feed_summaries@.push(feed_summary),
        final(summary).feeds_checked == old(summary).feeds_checked,
        final(summary).downloaded == old(summary).downloaded,
        final(summary).deleted_by_retention == old(summary).deleted_by_retention,
{
    summary.discovered = summary.discovered + feed_summary.discovered;
    summary.queued = summary.queued + feed_summary.queued;
    summary.skipped_initial = summary.skipped_initial + feed_summary.skipped_initial;
    summary.failed = summary.failed + feed_summary.failed;
    let mut errors = crate::model::clone_texts(&feed_summary.errors);
    summary.errors.append(&mut errors);
    summary.feed_summaries.push(feed_summary);
}

/// The position of the first feed summary for `feed_id`.
pub open spec fn first_summary_index(s: Seq<FeedCheckSummary>, feed_id: Seq<char>) -> Option<int> {
    if exists|i: int| 0 <= i < s.len() && s[i].feed_id@ == feed_id {
        Some(
            choose|i: int|
                0 <= i < s.len() && s[i].feed_id@ == feed_id && forall|j: int|
                    0 <= j < i ==> s[j].feed_id@ != feed_id,
        )
    } else {
        None
    }
}

proof fn lemma_first_below(s: Seq<FeedCheckSummary>, feed_id: Seq<char>, k: int)
    requires
        0 <= k < s.len(),
        s[k].feed_id@ == feed_id,
    ensures
        exists|i: int|
            0 <= i < s.len() && s[i].feed_id@ == feed_id && forall|j: int|
                0 <= j < i ==> s[j].feed_id@ != feed_id,
    decreases k,
{
    if exists|j: int| 0 <= j < k && s[j].feed_id@ == feed_id {
        let j = choose|j: int| 0 <= j < k && s[j].feed_id@ == feed_id;
        lemma_first_below(s, feed_id, j);
    }
}

/// The first summary for a feed is a summary of that feed, within the sequence.
pub proof fn lemma_first_summary_index(s: Seq<FeedCheckSummary>, feed_id: Seq<char>)
    ensures
        first_summary_index(s, feed_id) matches Some(i) ==> 0 <= i < s.len() && s[i].feed_id@
            == feed_id,
{
    if exists|i: int| 0 <= i < s.len() && s[i].feed_id@ == feed_id {
        let k = choose|i: int| 0 <= i < s.len() && s[i].feed_id@ == feed_id;
        lemma_first_below(s, feed_id, k);
    }
}

fn find_feed_summary(s: &Vec<FeedCheckSummary>, feed_id: &str) -> (r: Option<usize>)
    ensures
        match r {
            Some(i) => first_summary_index(s@, feed_id@) == Some(i as int) && i < s@.len(),
            None => first_summary_index(s@, feed_id@) is None,
        },
{
    let mut i: usize = 0;
    while i < s.len()
        invariant
            i <= s@.len(),
            forall|j: int| 0 <= j < i ==> s@[j].feed_id@ != feed_id@,
        decreases s@.len() - i,
    {
        if same_text(s[i].feed_id.as_str(), feed_id) {
            proof {
                let k = choose|k: int|
                    0 <= k < s@.len() && s@[k].feed_id@ == feed_id@ && forall|j: int|
                        0 <= j < k ==> s@[j].feed_id@ != feed_id@;
                assert(k == i) by {
                    if k < i {
                    }
                    if k > i {
                        assert(s@[i as int].feed_id@ == feed_id@);
                    }
                }
            }
            return Some(i);
        }
        i = i + 1;
    }
    None
}

/// Whether `ids` holds `id`.
pub open spec fn has_text(ids: Seq<String>, id: Seq<char>) -> bool {
    exists|i: int| 0 <= i < ids.len() && #[trigger] ids[i]@ == id
}

fn contains_text(ids: &Vec<String>, id: &str) -> (r: bool)
    ensures
        r == has_text(ids@, id@),
{
    let mut i: usize = 0;
    while i < ids.len()
        invariant
            i <= ids@.len(),
            forall|j: int| 0 <= j < i ==> ids@[j]@ != id@,
        decreases ids@.len() - i,
    {
        if same_text(ids[i].as_str(), id) {
            return true;
        }
        i = i + 1;
    }
    false
}

/// Remembers a feed whose downloads finished, once.
fn note_affected(affected: &mut Vec<String>, feed_id: &String)
    ensures
        has_text(old(affected)@, feed_id@) ==> final(affected)@ == old(affected)@,
        !has_text(old(affected)@, feed_id@) ==> final(affected)@ == old(affected)@.push(*feed_id),
{
    if !contains_text(affected, feed_id.as_str()) {
        affected.push(feed_id.clone());
    }
}

/// The feed summaries after the result of one download: the first summary of its feed
/// gains a download, or a failure with its text; the others are unchanged.
pub open spec fn summaries_after_result(
    before: Seq<FeedCheckSummary>,
    after: Seq<FeedCheckSummary>,
    result: JobResult,
) -> bool {
    let feed_id = match result {
        Ok(f) => f@,
        Err((f, _)) => f@,
    };
    &&& after.len() == before.len()
    &&& forall|k: int|
        0 <= k < before.len() && Some(k) != first_summary_index(before, feed_id) ==> #[trigger] after[k]
            == before[k]
    &&& first_summary_index(before, feed_id) matches Some(i) ==> {
        &&& after[i].feed_id == before[i].feed_id
        &&& after[i].feed_title == before[i].feed_title
        &&& after[i].discovered == before[i].discovered
        &&& after[i].queued == before[i].queued
        &&& after[i].skipped_initial == before[i].skipped_initial
        &&& after[i].deleted_by_retention == before[i].deleted_by_retention
        &&& match result {
            Ok(_) => after[i].downloaded == before[i].downloaded + 1 && after[i].failed
                == before[i].failed && after[i].errors@ == before[i].errors@,
            Err((_, e)) => after[i].downloaded == before[i].downloaded && after[i].failed
                == before[i].failed + 1 && after[i].errors@ == before[i].errors@.push(e),
        }
    }
}

/// The feed a download result belongs to.
pub open spec fn result_feed(result: JobResult) -> Seq<char> {
    match result {
        Ok(f) => f@,
        Err((f, _)) => f@,
    }
}

/// What counting one download result does to a full check's summary.
pub open spec fn result_counted(before: CheckSummary, after: CheckSummary, result: JobResult) -> bool {
    &&& summaries_after_result(before.feed_summaries@, after.feed_summaries@, result)
    &&& match result {
        Ok(_) => after.downloaded == before.downloaded + 1 && after.failed == before.failed
            && after.errors@ == before.errors@,
        Err((_, e)) => after.downloaded == before.downloaded && after.failed == before.failed + 1
            && after.errors@ == before.errors@.push(e),
    }
    &&& after.feeds_checked == before.feeds_checked
    &&& after.discovered == before.discovered
    &&& after.queued == before.queued
    &&& after.skipped_initial == before.skipped_initial
    &&& after.deleted_by_retention == before.deleted_by_retention
}

/// Counting a download result keeps every overall count the sum over the feed summaries,
/// when the result's feed has a summary (every job of a full check comes from one).
pub proof fn lemma_result_keeps_totals(before: CheckSummary, after: CheckSummary, result: JobResult)
    requires
        totals_add_up(before),
        result_counted(before, after, result),
        first_summary_index(before.feed_summaries@, result_feed(result)) is Some,
    ensures
        totals_add_up(after),
{
    let s = before.feed_summaries@;
    lemma_first_summary_index(s, result_feed(result));
    let i = first_summary_index(s, result_feed(result))->0;
    assert(after.feed_summaries@ =~= s.update(i, after.feed_summaries@[i]));
    lemma_count_sum_update(s, i, after.feed_summaries@[i], |f: FeedCheckSummary| f.discovered as int);
    lemma_count_sum_update(s, i, after.feed_summaries@[i], |f: FeedCheckSummary| f.queued as int);
    lemma_count_sum_update(s, i, after.feed_summaries@[i], |f: FeedCheckSummary| f.skipped_initial as int);
    lemma_count_sum_update(s, i, after.feed_summaries@[i], |f: FeedCheckSummary| f.downloaded as int);
    lemma_count_sum_update(s, i, after.feed_summaries@[i], |f: FeedCheckSummary| f.failed as int);
    lemma_count_sum_update(
        s,
        i,
        after.feed_summaries@[i],
        |f: FeedCheckSummary| f.deleted_by_retention as int,
    );
}

/// Counts the result of one download of a full check: overall and in its feed's summary,
/// and remembers its feed for retention.
#[verifier::rlimit(50)]
pub fn apply_check_all_result(
    summary: &mut CheckSummary,
    affected: &mut Vec<String>,
    result: JobResult,
)
    requires
        old(summary).downloaded < usize::MAX,
        old(summary).failed < usize::MAX,
        forall|k: int|
            0 <= k < old(summary).feed_summaries@.len() ==> (#[trigger] old(summary).feed_summaries@[k]).downloaded
                < usize::MAX && old(summary).feed_summaries@[k].failed < usize::MAX,
    ensures
        result_counted(*old(summary), *final(summary), result),
        match result {
            Ok(f) => has_text(old(affected)@, f@) ==> final(affected)@ == old(affected)@,
            Err((f, _)) => has_text(old(affected)@, f@) ==> final(affected)@ == old(affected)@,
        },
        match result {
            Ok(f) => !has_text(old(affected)@, f@) ==> final(affected)@ == old(affected)@.push(f),
            Err((f, _)) => !has_text(old(affected)@, f@) ==> final(affected)@ == old(
                affected,
            )@.push(f),
        },
{
    let ghost before = summary.feed_summaries@;
    match result {
        Ok(feed_id) => {
            summary.downloaded = summary.downloaded + 1;
            if let Some(i) = find_feed_summary(&summary.feed_summaries, feed_id.as_str()) {
                let mut fs = summary.feed_summaries.remove(i);
                fs.downloaded = fs.downloaded + 1;
                summary.feed_summaries.insert(i, fs);
                assert(summary.feed_summaries@ =~= before.update(i as int, summary.feed_summaries@[i as int]));
            }
            note_affected(affected, &feed_id);
        },
        Err((feed_id, error)) => {
            summary.failed = summary.failed + 1;
            summary.errors.push(error.clone());
            if let Some(i) = find_feed_summary(&summary.feed_summaries, feed_id.as_str()) {
                let mut fs = summary.feed_summaries.remove(i);
                fs.failed = fs.failed + 1;
                fs.errors.push(error);
                summary.feed_summaries.insert(i, fs);
                assert(summary.feed_summaries@ =~= before.update(i as int, summary.feed_summaries@[i as int]));
            }
            note_affected(affected, &feed_id);
        },
    }
}

/// What counting a feed's retention run does to a full check's summary: overall and in
/// the feed's first summary, its deleted files and its errors; when it could not run, its
/// error overall and nothing else.
pub open spec fn retention_counted(
    before: CheckSummary,
    after: CheckSummary,
    feed_id: Seq<char>,
    retention: std::result::Result<RetentionSummary, String>,
) -> bool {
    let s = before.feed_summaries@;
    let t = after.feed_summaries@;
    &&& match retention {
        Ok(r) => {
            &&& after.deleted_by_retention == before.deleted_by_retention + r.files_deleted
            &&& after.errors@ == before.errors@ + r.errors@
            &&& t.len() == s.len()
            &&& forall|k: int|
                0 <= k < s.len() && Some(k) != first_summary_index(s, feed_id) ==> #[trigger] t[k]
                    == s[k]
            &&& first_summary_index(s, feed_id) matches Some(i) ==> {
                &&& t[i].deleted_by_retention == s[i].deleted_by_retention + r.files_deleted
                &&& t[i].errors@ == s[i].errors@ + r.errors@
                &&& t[i].feed_id == s[i].feed_id
                &&& t[i].feed_title == s[i].feed_title
                &&& t[i].discovered == s[i].discovered
                &&& t[i].queued == s[i].queued
                &&& t[i].downloaded == s[i].downloaded
                &&& t[i].failed == s[i].failed
                &&& t[i].skipped_initial == s[i].skipped_initial
            }
        },
        Err(e) => {
            &&& after.deleted_by_retention == before.deleted_by_retention
            &&& after.errors@ == before.errors@.push(e)
            &&& t == s
        },
    }
    &&& after.feeds_checked == before.feeds_checked
    &&& after.discovered == before.discovered
    &&& after.queued == before.queued
    &&& after.downloaded == before.downloaded
    &&& after.failed == before.failed
    &&& after.skipped_initial == before.skipped_initial
}

/// Counting a retention run keeps every overall count the sum over the feed summaries,
/// when the feed has a summary or the run could not be made.
pub proof fn lemma_retention_keeps_totals(
    before: CheckSummary,
    after: CheckSummary,
    feed_id: Seq<char>,
    retention: std::result::Result<RetentionSummary, String>,
)
    requires
        totals_add_up(before),
        retention_counted(before, after, feed_id, retention),
        retention is Ok ==> first_summary_index(before.feed_summaries@, feed_id) is Some,
    ensures
        totals_add_up(after),
{
    if retention is Ok {
        let s = before.feed_summaries@;
        lemma_first_summary_index(s, feed_id);
        let i = first_summary_index(s, feed_id)->0;
        let x = after.feed_summaries@[i];
        assert(after.feed_summaries@ =~= s.update(i, x));
        lemma_count_sum_update(s, i, x, |f: FeedCheckSummary| f.discovered as int);
        lemma_count_sum_update(s, i, x, |f: FeedCheckSummary| f.queued as int);
        lemma_count_sum_update(s, i, x, |f: FeedCheckSummary| f.skipped_initial as int);
        lemma_count_sum_update(s, i, x, |f: FeedCheckSummary| f.downloaded as int);
        lemma_count_sum_update(s, i, x, |f: FeedCheckSummary| f.failed as int);
        lemma_count_sum_update(s, i, x, |f: FeedCheckSummary| f.deleted_by_retention as int);
    }
}

/// Counts a retention run of a full check: overall and in the feed's first summary; when
/// it could not run, its error is kept overall.
#[verifier::rlimit(50)]
pub fn apply_check_all_retention(
    summary: &mut CheckSummary,
    feed_id: &str,
    retention: std::result::Result<RetentionSummary, String>,
)
    requires
        retention matches Ok(r) ==> old(summary).deleted_by_retention + r.files_deleted
            <= usize::MAX && forall|k: int|
            0 <= k < old(summary).feed_summaries@.len() ==> (#[trigger] old(summary).feed_summaries@[k]).deleted_by_retention
                + r.files_deleted <= usize::MAX,
    ensures
        retention_counted(*old(summary), *final(summary), feed_id@, retention),
{
    match retention {
        Ok(r) => {
            summary.deleted_by_retention = summary.deleted_by_retention + r.files_deleted;
            let ghost before = summary.feed_summaries@;
            if let Some(i) = find_feed_summary(&summary.feed_summaries, feed_id) {
                let mut fs = summary.feed_summaries.remove(i);
                fs.deleted_by_retention = fs.deleted_by_retention + r.files_deleted;
                let mut copied = crate::model::clone_texts(&r.errors);
                fs.errors.append(&mut copied);
                summary.feed_summaries.insert(i, fs);
                assert(summary.feed_summaries@ =~= before.update(i as int, summary.feed_summaries@[i as int]));
            }
            let mut errors = r.errors;
            summary.errors.append(&mut errors);
        },
        Err(e) => {
            summary.errors.push(e);
        },
    }
}

/// The progress event that reports a feed's check as finished.
pub fn feed_finished_event(summary: &FeedCheckSummary) -> (r: DownloadProgress)
    ensures
        r matches DownloadProgress::FeedFinished { feed_id, feed_title, queued, downloaded, failed }
            && feed_id == summary.feed_id && feed_title == summary.feed_title && queued == summary.queued
            && downloaded == summary.downloaded && failed == summary.failed,
{
    DownloadProgress::FeedFinished {
        feed_id: summary.feed_id.clone(),
        feed_title: summary.feed_title.clone(),
        queued: summary.queued,
        downloaded: summary.downloaded,
        failed: summary.failed,
    }
}

} // verus!

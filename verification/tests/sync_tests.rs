use podcast_downloader::model::{EpisodeRecord, EpisodeStatus, FeedSubscription, RetentionSummary};
use podcast_downloader::sync::{
    apply_check_all_result, apply_check_all_retention, apply_download_results, apply_existing, apply_feed_retention,
    apply_first_run, existing_episode_action, feed_finished_event, initial_download_limit,
    is_first_run, merge_feed_summary, plan_first_run, record_check_failure, start_check_all,
    start_feed_check, ExistingEpisodeAction, ExistingOutcome,
};
use podcast_downloader::model::DownloadProgress;

fn sync_feed(id: &str, title: &str, limit: Option<u32>) -> FeedSubscription {
    FeedSubscription {
        id: id.to_string(),
        feed_url: format!("https://example.com/{id}.xml"),
        raw_title: title.to_string(),
        normalized_title: title.to_string(),
        site_url: None,
        description: None,
        artwork_url: None,
        retention_limit: limit,
        created_at: "now".to_string(),
        updated_at: "now".to_string(),
        last_checked_at: None,
    }
}

fn record(id: &str, status: EpisodeStatus) -> EpisodeRecord {
    EpisodeRecord {
        id: id.to_string(),
        feed_id: "feed".to_string(),
        episode_key: id.to_string(),
        raw_title: id.to_string(),
        normalized_title: id.to_string(),
        raw_author: None,
        published_at: None,
        media_url: format!("https://example.com/{id}.mp3"),
        media_content_type: None,
        media_length_bytes: None,
        status,
        file_path: None,
        first_seen_at: "now".to_string(),
        downloaded_at: None,
        deleted_at: None,
        last_error: None,
    }
}

#[test]
fn first_check_queues_newest_and_skips_the_rest() {
    let show = sync_feed("feed", "Show", None);
    assert_eq!(initial_download_limit(&show, 4), 4);
    assert!(is_first_run(0));
    assert!(!is_first_run(3));
    let statuses = plan_first_run(5, 4);
    assert_eq!(
        statuses,
        vec![
            EpisodeStatus::Pending,
            EpisodeStatus::Pending,
            EpisodeStatus::Pending,
            EpisodeStatus::Pending,
            EpisodeStatus::SkippedInitial
        ]
    );
    let outcomes = vec![
        (EpisodeStatus::Pending, Ok(record("e5", EpisodeStatus::Pending))),
        (EpisodeStatus::Pending, Err("insert failed".to_string())),
        (EpisodeStatus::SkippedInitial, Ok(record("e1", EpisodeStatus::SkippedInitial))),
    ];
    let mut summary = start_feed_check(&show);
    let jobs = apply_first_run(&mut summary, &show, outcomes);
    assert_eq!(jobs.len(), 1);
    assert_eq!(jobs[0].episode.id, "e5");
    assert_eq!(jobs[0].feed_title, "Show");
    assert_eq!(summary.queued, 1);
    assert_eq!(summary.skipped_initial, 1);
    assert_eq!(summary.failed, 1);
    assert_eq!(summary.errors, vec!["insert failed".to_string()]);
}

#[test]
fn feed_limit_overrides_the_default() {
    assert_eq!(initial_download_limit(&sync_feed("f", "F", Some(1)), 4), 1);
    assert_eq!(plan_first_run(2, 0), vec![EpisodeStatus::SkippedInitial, EpisodeStatus::SkippedInitial]);
}

#[test]
fn second_check_does_not_duplicate_and_retries_pending() {
    assert_eq!(existing_episode_action(&Some(record("a", EpisodeStatus::Downloaded))), ExistingEpisodeAction::Keep);
    assert_eq!(existing_episode_action(&Some(record("a", EpisodeStatus::SkippedInitial))), ExistingEpisodeAction::Keep);
    assert_eq!(existing_episode_action(&Some(record("a", EpisodeStatus::Deleted))), ExistingEpisodeAction::Keep);
    assert_eq!(existing_episode_action(&Some(record("a", EpisodeStatus::Pending))), ExistingEpisodeAction::Queue);
    assert_eq!(existing_episode_action(&Some(record("a", EpisodeStatus::Failed))), ExistingEpisodeAction::Queue);
    assert_eq!(existing_episode_action(&None), ExistingEpisodeAction::Insert);

    let show = sync_feed("feed", "Show", None);
    let mut summary = start_feed_check(&show);
    let jobs = apply_existing(
        &mut summary,
        &show,
        vec![
            ExistingOutcome::Found(record("done", EpisodeStatus::Downloaded)),
            ExistingOutcome::Found(record("retry", EpisodeStatus::Pending)),
            ExistingOutcome::Inserted(record("new", EpisodeStatus::Pending)),
            ExistingOutcome::Failed("lookup failed".to_string()),
        ],
    );
    let ids: Vec<&str> = jobs.iter().map(|j| j.episode.id.as_str()).collect();
    assert_eq!(ids, vec!["retry", "new"]);
    assert_eq!(summary.queued, 2);
    assert_eq!(summary.failed, 1);
}

#[test]
fn download_results_are_counted_per_feed() {
    let show = sync_feed("feed", "Show", None);
    let mut summary = start_feed_check(&show);
    apply_download_results(
        &mut summary,
        &vec![Ok("feed".to_string()), Err(("feed".to_string(), "http error: 500".to_string())), Ok("feed".to_string())],
    );
    assert_eq!(summary.downloaded, 2);
    assert_eq!(summary.failed, 1);
    assert_eq!(summary.errors, vec!["http error: 500".to_string()]);
    record_check_failure(&mut summary, "late".to_string());
    assert_eq!(summary.failed, 2);
    apply_feed_retention(&mut summary, Ok(RetentionSummary { feeds_checked: 1, files_deleted: 2, errors: vec!["x".to_string()] }));
    assert_eq!(summary.deleted_by_retention, 2);
    assert_eq!(summary.errors.len(), 3);
    apply_feed_retention(&mut summary, Err("db down".to_string()));
    assert_eq!(summary.errors.last().map(String::as_str), Some("db down"));
}

#[test]
fn full_check_counts_results_per_feed() {
    let mut all = start_check_all(2);
    assert_eq!(all.feeds_checked, 2);
    let a = sync_feed("a", "A", None);
    let b = sync_feed("b", "B", None);
    let mut sa = start_feed_check(&a);
    sa.queued = 1;
    let mut sb = start_feed_check(&b);
    sb.queued = 1;
    merge_feed_summary(&mut all, sa);
    merge_feed_summary(&mut all, sb);
    assert_eq!(all.queued, 2);
    let mut affected: Vec<String> = Vec::new();
    apply_check_all_result(&mut all, &mut affected, Ok("a".to_string()));
    apply_check_all_result(&mut all, &mut affected, Err(("b".to_string(), "boom".to_string())));
    apply_check_all_result(&mut all, &mut affected, Ok("a".to_string()));
    assert_eq!(all.downloaded, 2);
    assert_eq!(all.failed, 1);
    assert_eq!(affected, vec!["a".to_string(), "b".to_string()]);
    assert_eq!(all.feed_summaries[0].downloaded, 2);
    assert_eq!(all.feed_summaries[1].failed, 1);
    assert_eq!(all.feed_summaries[1].errors, vec!["boom".to_string()]);
}

#[test]
fn finished_feed_event_carries_the_counts() {
    let mut summary = start_feed_check(&sync_feed("f", "F", None));
    summary.queued = 3;
    summary.downloaded = 2;
    summary.failed = 1;
    match feed_finished_event(&summary) {
        DownloadProgress::FeedFinished { feed_id, feed_title, queued, downloaded, failed } => {
            assert_eq!((feed_id.as_str(), feed_title.as_str(), queued, downloaded, failed), ("f", "F", 3, 2, 1));
        }
        other => panic!("unexpected {other:?}"),
    }
}

#[test]
fn full_check_totals_are_the_sums_of_the_feed_summaries() {
    let mut all = start_check_all(2);
    let mut sa = start_feed_check(&sync_feed("a", "A", None));
    sa.discovered = 3;
    sa.queued = 2;
    sa.skipped_initial = 1;
    let mut sb = start_feed_check(&sync_feed("b", "B", None));
    sb.discovered = 1;
    sb.queued = 1;
    merge_feed_summary(&mut all, sa);
    merge_feed_summary(&mut all, sb);
    let mut affected: Vec<String> = Vec::new();
    apply_check_all_result(&mut all, &mut affected, Ok("a".to_string()));
    apply_check_all_result(&mut all, &mut affected, Ok("a".to_string()));
    apply_check_all_result(&mut all, &mut affected, Err(("b".to_string(), "boom".to_string())));
    apply_check_all_retention(
        &mut all,
        "a",
        Ok(RetentionSummary { feeds_checked: 1, files_deleted: 2, errors: vec!["locked".to_string()] }),
    );
    apply_check_all_retention(&mut all, "b", Err("db down".to_string()));
    let sum = |f: fn(&podcast_downloader::model::FeedCheckSummary) -> usize| -> usize {
        all.feed_summaries.iter().map(f).sum()
    };
    assert_eq!(all.discovered, sum(|s| s.discovered));
    assert_eq!(all.queued, sum(|s| s.queued));
    assert_eq!(all.skipped_initial, sum(|s| s.skipped_initial));
    assert_eq!(all.downloaded, sum(|s| s.downloaded));
    assert_eq!(all.failed, sum(|s| s.failed));
    assert_eq!(all.deleted_by_retention, sum(|s| s.deleted_by_retention));
    assert_eq!(all.deleted_by_retention, 2);
    assert_eq!(all.feed_summaries[0].deleted_by_retention, 2);
    assert_eq!(all.feed_summaries[0].errors, vec!["locked".to_string()]);
    assert_eq!(all.feed_summaries[1].errors, vec!["boom".to_string()]);
    assert_eq!(
        all.errors,
        vec!["boom".to_string(), "locked".to_string(), "db down".to_string()]
    );
}

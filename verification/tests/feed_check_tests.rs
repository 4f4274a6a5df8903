use podcast_downloader::feed_check::{
    begin_feed_check, feed_check_step, FeedCheckAction, FeedCheckEvent, FeedCheckPhase,
};
use podcast_downloader::feeds::ParsedEpisode;
use podcast_downloader::model::{DownloadProgress, EpisodeRecord, EpisodeStatus, FeedSubscription};

fn parsed(key: &str, published: &str) -> ParsedEpisode {
    ParsedEpisode {
        episode_key: key.to_string(),
        raw_title: key.to_string(),
        normalized_title: key.to_string(),
        raw_author: None,
        published_at: Some(published.to_string()),
        media_url: format!("https://example.com/{key}.mp3"),
        media_content_type: None,
        media_length_bytes: None,
    }
}

fn three_episodes() -> Vec<ParsedEpisode> {
    vec![
        parsed("e1", "2026-06-27T10:00:00+00:00"),
        parsed("e3", "2026-06-29T10:00:00+00:00"),
        parsed("e2", "2026-06-28T10:00:00+00:00"),
    ]
}

fn check_feed(id: &str, title: &str, limit: Option<u32>) -> FeedSubscription {
    FeedSubscription {
        id: id.to_string(),
        feed_url: format!("https://example.com/{id}.xml"),
        raw_title: title.to_string(),
        normalized_title: title.to_string(),
        site_url: None,
        description: None,
        artwork_url: None,
        retention_limit: limit,
        created_at: "now".to_string(),
        updated_at: "now".to_string(),
        last_checked_at: None,
    }
}

fn stored(id: &str, status: EpisodeStatus) -> EpisodeRecord {
    EpisodeRecord {
        id: id.to_string(),
        feed_id: "feed".to_string(),
        episode_key: id.to_string(),
        raw_title: id.to_string(),
        normalized_title: id.to_string(),
        raw_author: None,
        published_at: None,
        media_url: format!("https://example.com/{id}.mp3"),
        media_content_type: None,
        media_length_bytes: None,
        status,
        file_path: None,
        first_seen_at: "now".to_string(),
        downloaded_at: None,
        deleted_at: None,
        last_error: None,
    }
}

#[test]
fn fetch_failure_ends_the_check_with_one_failure() {
    let (mut check, started, action) = begin_feed_check(check_feed("feed", "Show", None), 4);
    assert!(matches!(started, DownloadProgress::FeedStarted { .. }));
    assert!(matches!(action, FeedCheckAction::Fetch));
    let event = FeedCheckEvent::Fetched(Err("http error: 500".to_string()));
    assert!(check.accepts(&event));
    let (next, events) = feed_check_step(&mut check, event);
    assert!(matches!(next, FeedCheckAction::Finish));
    assert_eq!(check.phase, FeedCheckPhase::Done);
    assert_eq!(check.summary.failed, 1);
    assert_eq!(check.summary.discovered, 0);
    assert_eq!(check.summary.errors, vec!["http error: 500".to_string()]);
    assert!(check.jobs.is_empty());
    assert_eq!(events.len(), 1);
    assert!(matches!(events[0], DownloadProgress::FeedFinished { queued: 0, downloaded: 0, failed: 1, .. }));
}

#[test]
fn first_check_queues_the_newest_and_reports_them() {
    let (mut check, _, _) = begin_feed_check(check_feed("feed", "Show", Some(2)), 4);
    let (next, events) = feed_check_step(&mut check, FeedCheckEvent::Fetched(Ok(three_episodes())));
    assert!(matches!(next, FeedCheckAction::StoreMetadata) && events.is_empty());
    let keys: Vec<&str> = check.episodes.iter().map(|e| e.episode_key.as_str()).collect();
    assert_eq!(keys, vec!["e3", "e2", "e1"]);
    let (next, _) = feed_check_step(&mut check, FeedCheckEvent::MetadataStored(Ok(())));
    assert!(matches!(next, FeedCheckAction::CountEpisodes));
    let (next, _) = feed_check_step(&mut check, FeedCheckEvent::Counted(Ok(0)));
    let pairs = match next {
        FeedCheckAction::StoreFirstRun(pairs) => pairs,
        other => panic!("unexpected {other:?}"),
    };
    let planned: Vec<(&str, EpisodeStatus)> = pairs.iter().map(|(e, s)| (e.episode_key.as_str(), *s)).collect();
    assert_eq!(
        planned,
        vec![("e3", EpisodeStatus::Pending), ("e2", EpisodeStatus::Pending), ("e1", EpisodeStatus::SkippedInitial)]
    );
    let statuses: Vec<EpisodeStatus> = pairs.iter().map(|(_, s)| *s).collect();
    let outcomes = vec![
        (statuses[0], Ok(stored("e3", statuses[0]))),
        (statuses[1], Ok(stored("e2", statuses[1]))),
        (statuses[2], Ok(stored("e1", statuses[2]))),
    ];
    let (next, _) = feed_check_step(&mut check, FeedCheckEvent::FirstRunStored(outcomes));
    assert!(matches!(next, FeedCheckAction::MarkChecked));
    let (next, events) = feed_check_step(&mut check, FeedCheckEvent::Marked(Err("locked".to_string())));
    assert!(matches!(next, FeedCheckAction::Finish));
    assert_eq!(check.summary.discovered, 3);
    assert_eq!(check.summary.queued, 2);
    assert_eq!(check.summary.skipped_initial, 1);
    assert_eq!(check.summary.errors, vec!["locked".to_string()]);
    let ids: Vec<&str> = check.jobs.iter().map(|j| j.episode.id.as_str()).collect();
    assert_eq!(ids, vec!["e3", "e2"]);
    assert_eq!(events.len(), 3);
    assert!(matches!(&events[0], DownloadProgress::DownloadQueued { episode_id, .. } if episode_id.as_str() == "e3"));
    assert!(matches!(events[2], DownloadProgress::FeedFinished { queued: 2, downloaded: 0, failed: 0, .. }));
}

#[test]
fn later_check_queues_only_unsettled_episodes() {
    let (mut check, _, _) = begin_feed_check(check_feed("feed", "Show", None), 4);
    feed_check_step(&mut check, FeedCheckEvent::Fetched(Ok(three_episodes())));
    feed_check_step(&mut check, FeedCheckEvent::MetadataStored(Ok(())));
    let (next, _) = feed_check_step(&mut check, FeedCheckEvent::Counted(Ok(4)));
    assert!(matches!(next, FeedCheckAction::StoreExisting));
    let outcomes = vec![
        podcast_downloader::sync::ExistingOutcome::Found(stored("a", EpisodeStatus::Downloaded)),
        podcast_downloader::sync::ExistingOutcome::Found(stored("b", EpisodeStatus::Failed)),
        podcast_downloader::sync::ExistingOutcome::Inserted(stored("c", EpisodeStatus::Pending)),
    ];
    feed_check_step(&mut check, FeedCheckEvent::ExistingStored(outcomes));
    let (_, events) = feed_check_step(&mut check, FeedCheckEvent::Marked(Ok(())));
    assert_eq!(check.summary.queued, 2);
    assert_eq!(events.len(), 3);
}

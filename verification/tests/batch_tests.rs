use podcast_downloader::batch::{
    admit_episode, begin_batch, finish_batch, record_batch_result, record_missing, record_queued,
    single_download_summary,
};
use podcast_downloader::batch_run::{batch_run_step, begin_batch_run, BatchAction, BatchEvent, BatchPhase};
use podcast_downloader::model::{EpisodeRecord, EpisodeStatus, FeedSubscription, PodcastError};

fn batch_feed(id: &str, title: &str) -> FeedSubscription {
    FeedSubscription {
        id: id.to_string(),
        feed_url: String::new(),
        raw_title: title.to_string(),
        normalized_title: title.to_string(),
        site_url: None,
        description: None,
        artwork_url: None,
        retention_limit: None,
        created_at: String::new(),
        updated_at: String::new(),
        last_checked_at: None,
    }
}

#[test]
fn batch_counts_duplicates_and_missing_episodes() {
    let mut plan = begin_batch(4);
    assert!(admit_episode(&mut plan, "e1"));
    record_queued(&mut plan, &batch_feed("f", "Show"));
    assert!(!admit_episode(&mut plan, "e1"));
    assert!(admit_episode(&mut plan, "missing-episode"));
    record_missing(&mut plan, "missing-episode");
    assert!(admit_episode(&mut plan, "e2"));
    record_queued(&mut plan, &batch_feed("f", "Show"));
    record_batch_result(&mut plan, Ok("f".to_string()));
    record_batch_result(&mut plan, Err(("f".to_string(), "http error: 500".to_string())));
    let batch = finish_batch(plan);
    assert_eq!(batch.requested, 4);
    assert_eq!(batch.queued, 2);
    assert_eq!(batch.downloaded, 1);
    assert_eq!(batch.failed, 3);
    assert!(batch.errors.iter().any(|e| e.contains("duplicate episode id")));
    assert!(batch.errors.iter().any(|e| e == "not found: missing-episode"));
    assert_eq!(batch.feed_summaries.len(), 1);
    assert_eq!(batch.feed_summaries[0].queued, 2);
    assert_eq!(batch.feed_summaries[0].downloaded, 1);
    assert_eq!(batch.feed_summaries[0].failed, 1);
}

#[test]
fn batch_feed_summaries_are_ordered_by_title() {
    let mut plan = begin_batch(3);
    for (id, f) in [("1", batch_feed("b", "Beta")), ("2", batch_feed("a", "Alpha")), ("3", batch_feed("c", "Gamma"))] {
        assert!(admit_episode(&mut plan, id));
        record_queued(&mut plan, &f);
    }
    let batch = finish_batch(plan);
    let titles: Vec<&str> = batch.feed_summaries.iter().map(|s| s.feed_title.as_str()).collect();
    assert_eq!(titles, vec!["Alpha", "Beta", "Gamma"]);
}

#[test]
fn single_download_takes_the_last_feed_summary() {
    let empty = finish_batch(begin_batch(1));
    match single_download_summary(empty, "e9") {
        Err(PodcastError::NotFound(m)) => assert_eq!(m, "e9"),
        other => panic!("unexpected {other:?}"),
    }
    let mut plan = begin_batch(1);
    assert!(admit_episode(&mut plan, "e1"));
    record_queued(&mut plan, &batch_feed("f", "Show"));
    let summary = single_download_summary(finish_batch(plan), "e1").unwrap();
    assert_eq!(summary.feed_id, "f");
    assert_eq!(summary.queued, 1);
}

#[test]
fn batch_totals_are_the_sums_of_the_feed_summaries() {
    let mut plan = begin_batch(3);
    for (id, f) in [("1", batch_feed("b", "Beta")), ("2", batch_feed("a", "Alpha")), ("3", batch_feed("b", "Beta"))] {
        assert!(admit_episode(&mut plan, id));
        record_queued(&mut plan, &f);
    }
    record_batch_result(&mut plan, Ok("b".to_string()));
    record_batch_result(&mut plan, Ok("a".to_string()));
    record_batch_result(&mut plan, Err(("b".to_string(), "boom".to_string())));
    let batch = finish_batch(plan);
    assert_eq!(batch.queued, batch.feed_summaries.iter().map(|s| s.queued).sum::<usize>());
    assert_eq!(batch.downloaded, batch.feed_summaries.iter().map(|s| s.downloaded).sum::<usize>());
    assert_eq!(batch.queued, 3);
    assert_eq!(batch.downloaded, 2);
    assert_eq!(batch.feed_summaries[0].deleted_by_retention, 0);
    assert_eq!(batch.feed_summaries[1].errors, vec!["boom".to_string()]);
}

fn episode(id: &str, feed_id: &str) -> EpisodeRecord {
    EpisodeRecord {
        id: id.to_string(),
        feed_id: feed_id.to_string(),
        episode_key: id.to_string(),
        raw_title: id.to_string(),
        normalized_title: id.to_string(),
        raw_author: None,
        published_at: None,
        media_url: format!("https://example.com/{id}.mp3"),
        media_content_type: None,
        media_length_bytes: None,
        status: EpisodeStatus::SkippedInitial,
        file_path: None,
        first_seen_at: "now".to_string(),
        downloaded_at: None,
        deleted_at: None,
        last_error: None,
    }
}

#[test]
fn batch_run_accounts_for_every_requested_id() {
    let ids = vec!["e1".to_string(), "e1".to_string(), "gone".to_string(), "e2".to_string(), "orphan".to_string()];
    let (mut run, mut action) = begin_batch_run(ids);
    let mut reported = 0;
    loop {
        let event = match &action {
            BatchAction::LookUpEpisode(id) => match id.as_str() {
                "e1" => BatchEvent::EpisodeFound(Some(episode("e1", "f"))),
                "e2" => BatchEvent::EpisodeFound(Some(episode("e2", "f"))),
                "orphan" => BatchEvent::EpisodeFound(Some(episode("orphan", "nofeed"))),
                _ => BatchEvent::EpisodeFound(None),
            },
            BatchAction::LookUpFeed(feed_id) if feed_id.as_str() == "f" => {
                BatchEvent::FeedFound(Some(batch_feed("f", "Show")))
            }
            BatchAction::LookUpFeed(_) => BatchEvent::FeedFound(None),
            BatchAction::RunJobs => BatchEvent::JobsRan(vec![
                Ok("f".to_string()),
                Err(("f".to_string(), "http error: 500".to_string())),
            ]),
            BatchAction::Finish => break,
        };
        assert!(run.waits_for(&event));
        let (next, events) = batch_run_step(&mut run, event);
        reported += events.len();
        action = next;
    }
    assert_eq!(run.phase, BatchPhase::Done);
    assert_eq!(reported, 2);
    let batch = finish_batch(run.plan);
    assert_eq!(batch.requested, 5);
    assert_eq!(batch.queued, 2);
    assert_eq!(batch.downloaded, 1);
    assert_eq!(batch.failed, 4);
    assert_eq!(batch.downloaded + batch.failed, batch.requested);
    assert_eq!(batch.errors.len(), batch.failed);
    assert!(batch.errors.iter().any(|e| e == "not found: gone"));
    assert!(batch.errors.iter().any(|e| e == "not found: nofeed"));
}

use podcast_downloader::model::{EpisodeRecord, EpisodeStatus, RetentionSummary};
use podcast_downloader::retention::{
    episodes_beyond_limit, merge_retention, record_removal, start_retention, FileRemoval,
};

fn downloaded(id: &str) -> EpisodeRecord {
    EpisodeRecord {
        id: id.to_string(),
        feed_id: "feed".to_string(),
        episode_key: id.to_string(),
        raw_title: id.to_string(),
        normalized_title: id.to_string(),
        raw_author: None,
        published_at: None,
        media_url: String::new(),
        media_content_type: None,
        media_length_bytes: None,
        status: EpisodeStatus::Downloaded,
        file_path: Some(format!("{id}.mp3")),
        first_seen_at: "now".to_string(),
        downloaded_at: None,
        deleted_at: None,
        last_error: None,
    }
}

#[test]
fn retention_removes_downloads_past_the_limit() {
    let list: Vec<EpisodeRecord> = ["e5", "e4", "e3", "e2", "e1"].iter().map(|i| downloaded(i)).collect();
    let beyond = episodes_beyond_limit(list, 4);
    let ids: Vec<&str> = beyond.iter().map(|e| e.id.as_str()).collect();
    assert_eq!(ids, vec!["e1"]);
}

#[test]
fn retention_within_limit_removes_nothing() {
    let list: Vec<EpisodeRecord> = ["e2", "e1"].iter().map(|i| downloaded(i)).collect();
    assert!(episodes_beyond_limit(list, 4).is_empty());
    let list: Vec<EpisodeRecord> = ["e2", "e1"].iter().map(|i| downloaded(i)).collect();
    assert_eq!(episodes_beyond_limit(list, 0).len(), 2);
}

#[test]
fn removals_are_counted_and_failures_reported() {
    let mut summary = start_retention();
    assert_eq!(summary.feeds_checked, 1);
    assert!(record_removal(&mut summary, "e1", FileRemoval::Removed));
    assert!(record_removal(&mut summary, "e2", FileRemoval::Missing));
    assert!(record_removal(&mut summary, "e3", FileRemoval::NoFile));
    assert!(!record_removal(&mut summary, "e4", FileRemoval::Failed("denied".to_string())));
    assert_eq!(summary.files_deleted, 1);
    assert_eq!(summary.errors, vec!["failed deleting retained file for episode e4: denied".to_string()]);

    let mut total = RetentionSummary::default();
    merge_retention(&mut total, summary);
    merge_retention(&mut total, start_retention());
    assert_eq!(total.feeds_checked, 2);
    assert_eq!(total.files_deleted, 1);
    assert_eq!(total.errors.len(), 1);
}

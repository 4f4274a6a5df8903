use podcast_downloader::desktop::{downloaded_episodes, TaskLock};
use podcast_downloader::model::{EpisodeRecord, EpisodeStatus, FeedSubscription};

fn listed_feed(id: &str, title: &str) -> FeedSubscription {
    FeedSubscription {
        id: id.to_string(),
        feed_url: String::new(),
        raw_title: title.to_string(),
        normalized_title: title.to_string(),
        site_url: None,
        description: None,
        artwork_url: None,
        retention_limit: None,
        created_at: String::new(),
        updated_at: String::new(),
        last_checked_at: None,
    }
}

fn listed_episode(id: &str, status: EpisodeStatus, published: Option<&str>) -> EpisodeRecord {
    EpisodeRecord {
        id: id.to_string(),
        feed_id: String::new(),
        episode_key: id.to_string(),
        raw_title: id.to_string(),
        normalized_title: id.to_string(),
        raw_author: None,
        published_at: published.map(str::to_string),
        media_url: String::new(),
        media_content_type: None,
        media_length_bytes: None,
        status,
        file_path: None,
        first_seen_at: String::new(),
        downloaded_at: None,
        deleted_at: None,
        last_error: None,
    }
}

#[test]
fn active_task_blocks_overlapping_work() {
    let mut lock = TaskLock::new();
    lock.begin_task("check_all").unwrap();
    let error = lock.begin_task("download_episodes").unwrap_err();
    assert_eq!(error.kind, "task_active");
    assert_eq!(error.message, "check_all is already running");
    lock.end_task();
    lock.begin_task("download_episodes").unwrap();
    assert_eq!(lock.active.as_deref(), Some("download_episodes"));
}

#[test]
fn downloaded_episodes_are_listed_newest_first() {
    let library = vec![
        (
            listed_feed("b", "Beta"),
            vec![
                listed_episode("b1", EpisodeStatus::Downloaded, Some("2026-01-02")),
                listed_episode("b2", EpisodeStatus::Pending, Some("2026-05-01")),
                listed_episode("b3", EpisodeStatus::Downloaded, None),
            ],
        ),
        (
            listed_feed("a", "Alpha"),
            vec![
                listed_episode("a1", EpisodeStatus::Downloaded, Some("2026-01-02")),
                listed_episode("a2", EpisodeStatus::Downloaded, Some("2026-03-01")),
            ],
        ),
    ];
    let listed = downloaded_episodes(library);
    let ids: Vec<&str> = listed.iter().map(|d| d.episode.id.as_str()).collect();
    assert_eq!(ids, vec!["a2", "a1", "b1", "b3"]);
    assert_eq!(listed[0].feed.id, "a");
}

#[test]
fn empty_library_lists_no_downloads() {
    assert!(downloaded_episodes(Vec::new()).is_empty());
}

#[test]
fn listing_keeps_the_order_of_equal_items() {
    let library = vec![(
        listed_feed("a", "Alpha"),
        vec![
            listed_episode("x", EpisodeStatus::Downloaded, None),
            listed_episode("y", EpisodeStatus::Downloaded, None),
            listed_episode("z", EpisodeStatus::Downloaded, Some("2026-01-01")),
        ],
    )];
    let listed = downloaded_episodes(library);
    let ids: Vec<&str> = listed.iter().map(|d| d.episode.id.as_str()).collect();
    assert_eq!(ids, vec!["z", "x", "y"]);
}

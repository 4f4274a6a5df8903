use podcast_downloader::feeds::{ParsedEpisode, ParsedFeed};
use podcast_downloader::library::{
    check_deletable, check_has_episodes, check_not_subscribed, delete_download_summary,
    feed_preview, require_found, wants_download_deleted,
};
use podcast_downloader::model::{EpisodeStatus, PodcastError};

fn parsed(episodes: usize) -> ParsedFeed {
    ParsedFeed {
        raw_title: " Show ".to_string(),
        normalized_title: "Show".to_string(),
        site_url: Some("https://example.com".to_string()),
        description: None,
        artwork_url: None,
        episodes: (0..episodes)
            .map(|i| ParsedEpisode {
                episode_key: format!("k{i}"),
                raw_title: format!("E{i}"),
                normalized_title: format!("E{i}"),
                raw_author: None,
                published_at: None,
                media_url: format!("https://example.com/{i}.mp3"),
                media_content_type: Some("audio/mpeg".to_string()),
                media_length_bytes: Some(i as i64),
            })
            .collect(),
    }
}

#[test]
fn duplicate_feed_urls_are_refused() {
    assert!(check_not_subscribed("https://example.com/feed.xml", false).is_ok());
    match check_not_subscribed("https://example.com/feed.xml", true) {
        Err(PodcastError::DuplicateFeed(u)) => assert_eq!(u, "https://example.com/feed.xml"),
        other => panic!("unexpected {other:?}"),
    }
}

#[test]
fn feeds_without_episodes_are_refused() {
    assert!(check_has_episodes("u", &parsed(1)).is_ok());
    assert!(matches!(check_has_episodes("u", &parsed(0)), Err(PodcastError::NoDownloadableEpisodes(u)) if u == "u"));
}

#[test]
fn missing_records_are_not_found() {
    assert_eq!(require_found(Some(3), "x").unwrap(), 3);
    assert!(matches!(require_found::<u8>(None, "missing"), Err(PodcastError::NotFound(m)) if m == "missing"));
}

#[test]
fn previews_carry_every_episode() {
    let preview = feed_preview("https://example.com/feed.xml", parsed(2));
    assert_eq!(preview.feed_url, "https://example.com/feed.xml");
    assert_eq!(preview.normalized_title, "Show");
    assert_eq!(preview.episodes.len(), 2);
    assert_eq!(preview.episodes[1].episode_key, "k1");
    assert_eq!(preview.episodes[1].media_length_bytes, Some(1));
}

#[test]
fn only_downloaded_episodes_lose_their_download() {
    assert!(wants_download_deleted(EpisodeStatus::Downloaded));
    assert!(!wants_download_deleted(EpisodeStatus::Pending));
    let skipped = delete_download_summary(EpisodeStatus::Failed, true);
    assert_eq!((skipped.requested, skipped.deleted, skipped.files_deleted), (1, 0, 0));
    let done = delete_download_summary(EpisodeStatus::Downloaded, true);
    assert_eq!((done.requested, done.deleted, done.files_deleted), (1, 1, 1));
    let gone = delete_download_summary(EpisodeStatus::Downloaded, false);
    assert_eq!((gone.requested, gone.deleted, gone.files_deleted), (1, 1, 0));
}

#[test]
fn files_outside_the_download_directory_are_not_deleted() {
    assert!(check_deletable("/data/downloads/a.mp3", "/data/downloads").is_ok());
    match check_deletable("/etc/passwd", "/data/downloads") {
        Err(PodcastError::InvalidConfig(m)) => {
            assert_eq!(m, "refusing to delete file outside download directory: /etc/passwd")
        }
        other => panic!("unexpected {other:?}"),
    }
    assert!(check_deletable("/data/downloads2/a.mp3", "/data/downloads").is_err());
}

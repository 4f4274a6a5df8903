use podcast_downloader::downloads::{
    attempt_outcome, base_filename, candidate_filenames, converted_part_file_name,
    is_stale_temp_file, lock_file_name, part_file_name, plan_download, replace_extension,
    reservation_exhausted, DownloadJob,
};
use podcast_downloader::model::{EpisodeRecord, EpisodeStatus, PodcastError};

fn episode(published_at: Option<&str>, media_url: &str, content_type: Option<&str>) -> EpisodeRecord {
    EpisodeRecord {
        id: "episode".to_string(),
        feed_id: "feed".to_string(),
        episode_key: "key".to_string(),
        raw_title: "Episode".to_string(),
        normalized_title: "Episode / One".to_string(),
        raw_author: None,
        published_at: published_at.map(str::to_string),
        media_url: media_url.to_string(),
        media_content_type: content_type.map(str::to_string),
        media_length_bytes: None,
        status: EpisodeStatus::Pending,
        file_path: None,
        first_seen_at: "now".to_string(),
        downloaded_at: None,
        deleted_at: None,
        last_error: None,
    }
}

#[test]
fn builds_flat_filename_with_show_prefix() {
    let job = DownloadJob {
        feed_id: "feed".to_string(),
        feed_title: "Show: Name".to_string(),
        episode: EpisodeRecord {
            id: "episode".to_string(),
            feed_id: "feed".to_string(),
            episode_key: "key".to_string(),
            raw_title: "Episode".to_string(),
            normalized_title: "Episode / One".to_string(),
            raw_author: None,
            published_at: Some("2026-06-29T00:00:00Z".to_string()),
            media_url: "https://example.com/e.mp3".to_string(),
            media_content_type: None,
            media_length_bytes: None,
            status: EpisodeStatus::Pending,
            file_path: None,
            first_seen_at: "now".to_string(),
            downloaded_at: None,
            deleted_at: None,
            last_error: None,
        },
    };

    let filename = base_filename(&job, "mp3");
    assert!(filename.starts_with("Show Name - 2026-06-29 - Episode One"));
    assert!(filename.ends_with(".mp3"));
}

#[test]
fn flat_filename_is_exact() {
    let job = DownloadJob {
        feed_id: "feed".to_string(),
        feed_title: "Show: Name".to_string(),
        episode: episode(None, "https://example.com/e.mp3", None),
    };
    assert_eq!(base_filename(&job, "m4a"), "Show Name - unknown-date - Episode One.m4a");
}

#[test]
fn plan_converts_non_mp3_when_mp3_is_required() {
    let job = DownloadJob {
        feed_id: "feed".to_string(),
        feed_title: "Show".to_string(),
        episode: episode(Some("2026-06-29T00:00:00Z"), "https://example.com/episode-1.m4a", Some("audio/mp4")),
    };
    let plan = plan_download(true, &job, None);
    assert_eq!(plan.content_type.as_deref(), Some("audio/mp4"));
    assert_eq!(plan.source_extension, "m4a");
    assert!(plan.needs_conversion);
    assert_eq!(plan.final_extension, "mp3");
    assert_eq!(plan.filename, "Show - 2026-06-29 - Episode One.mp3");
    assert_eq!(plan.reservation_extension, "m4a");

    let kept = plan_download(false, &job, Some("audio/mpeg".to_string()));
    assert_eq!(kept.content_type.as_deref(), Some("audio/mpeg"));
    assert!(!kept.needs_conversion);
    assert_eq!(kept.final_extension, "m4a");
    assert_eq!(kept.reservation_extension, "m4a");
}

#[test]
fn plan_keeps_mp3_as_it_is() {
    let job = DownloadJob {
        feed_id: "feed".to_string(),
        feed_title: "Show".to_string(),
        episode: episode(None, "https://example.com/episode-download", None),
    };
    let plan = plan_download(true, &job, Some("audio/mpeg".to_string()));
    assert_eq!(plan.source_extension, "unknown");
    assert!(!plan.needs_conversion);
    assert_eq!(plan.reservation_extension, "mp3");
    let unknown = plan_download(true, &job, None);
    assert!(unknown.needs_conversion);
    assert_eq!(unknown.reservation_extension, "unknown");
}

#[test]
fn candidate_names_add_hash_then_counter() {
    let names = candidate_filenames("Show - 2026-06-29 - Ep.mp3", "key");
    assert_eq!(names.len(), 101);
    assert_eq!(names[0], "Show - 2026-06-29 - Ep.mp3");
    assert_eq!(names[1], "Show - 2026-06-29 - Ep - 2c70e12b.mp3");
    assert_eq!(names[2], "Show - 2026-06-29 - Ep - 2c70e12b-1.mp3");
    assert_eq!(names[100], "Show - 2026-06-29 - Ep - 2c70e12b-99.mp3");
    let bare = candidate_filenames("noext", "key");
    assert_eq!(bare[1], "noext - 2c70e12b.mp3");
}

#[test]
fn temporary_file_names() {
    assert_eq!(lock_file_name("a.b.mp3", "mp3"), "a.b.mp3.lock");
    assert_eq!(part_file_name("Show - x.mp3", "m4a", "1234"), "Show - x.m4a.1234.part");
    assert_eq!(converted_part_file_name("Show - x.m4a.1234.part"), "Show - x.m4a.1234.mp3.converted.part");
    assert_eq!(replace_extension(".hidden", "txt"), ".hidden.txt");
    assert_eq!(replace_extension("a.txt", ""), "a");
    assert!(is_stale_temp_file("得体广播站 - episode.mp3.lock"));
    assert!(is_stale_temp_file("得体广播站 - episode.m4a.uuid.part"));
    assert!(!is_stale_temp_file("episode.mp3"));
}

#[test]
fn attempts_are_recorded_with_the_error_text() {
    let ok: Result<String, PodcastError> = Ok("file.mp3".to_string());
    assert_eq!(attempt_outcome(&ok), ("downloaded", None));
    let failed: Result<String, PodcastError> = Err(PodcastError::Http("500".to_string()));
    assert_eq!(attempt_outcome(&failed), ("failed", Some("http error: 500".to_string())));
    match reservation_exhausted("a.mp3") {
        PodcastError::Io(m) => assert_eq!(m, "could not reserve unique filename for a.mp3"),
        other => panic!("unexpected {other:?}"),
    }
}

use podcast_downloader::model::DownloadProgress;
use podcast_downloader::progress::ProgressState;

fn started(id: &str, title: &str, total: Option<u64>) -> DownloadProgress {
    DownloadProgress::DownloadStarted {
        feed_id: "f".to_string(),
        episode_id: id.to_string(),
        episode_title: title.to_string(),
        total_bytes: total,
    }
}

#[test]
fn progress_follows_a_download() {
    let mut state = ProgressState::default();
    state.apply(DownloadProgress::FeedStarted { feed_id: "f".to_string(), feed_title: "Show".to_string() });
    assert_eq!(state.label, "Syncing Show");
    assert_eq!(state.syncing_feeds(), 1);
    state.apply(DownloadProgress::DownloadQueued {
        feed_id: "f".to_string(),
        episode_id: "e".to_string(),
        episode_title: "Ep".to_string(),
    });
    assert_eq!(state.queued(), 1);
    assert_eq!(state.queued_pending(), 1);
    state.apply(started("e", "Ep", Some(20)));
    assert_eq!(state.active_downloads(), 1);
    assert_eq!(state.queued_pending(), 0);
    assert_eq!(state.current_download_bytes(), Some((0, 20)));
    state.apply(DownloadProgress::DownloadAdvanced {
        feed_id: "f".to_string(),
        episode_id: "e".to_string(),
        episode_title: "Ep".to_string(),
        downloaded_bytes: 10,
        total_bytes: Some(20),
    });
    assert_eq!(state.current_download_bytes(), Some((10, 20)));
    assert_eq!(state.label, "Downloading Ep");
    assert_eq!(state.monitor_label("idle"), "Ep");
    state.apply(DownloadProgress::ConversionStarted {
        feed_id: "f".to_string(),
        episode_id: "e".to_string(),
        episode_title: "Ep".to_string(),
    });
    assert_eq!(state.active_downloads(), 0);
    assert_eq!(state.active_conversions(), 1);
    assert_eq!(state.current_conversion_title(), Some("Ep"));
    state.apply(DownloadProgress::ConversionFinished {
        feed_id: "f".to_string(),
        episode_id: "e".to_string(),
        episode_title: "Ep".to_string(),
    });
    assert_eq!(state.label, "Converted Ep");
    state.apply(DownloadProgress::DownloadFinished {
        feed_id: "f".to_string(),
        episode_id: "e".to_string(),
        episode_title: "Ep".to_string(),
        file_path: "x.mp3".to_string(),
    });
    assert_eq!(state.completed(), 1);
    assert_eq!(state.label, "Downloaded Ep");
    assert_eq!(state.monitor_label("idle"), "Downloaded Ep");
    state.apply(DownloadProgress::FeedFinished {
        feed_id: "f".to_string(),
        feed_title: "Show".to_string(),
        queued: 1,
        downloaded: 1,
        failed: 0,
    });
    assert_eq!(state.label, "Synced Show: 1 queued, 0 failed");
    assert_eq!(state.syncing_feeds(), 0);
    assert_eq!(state.overall_fraction(), (1, 1));
}

#[test]
fn failures_leave_the_monitor_and_count() {
    let mut state = ProgressState::default();
    state.apply(started("e", "Ep", None));
    assert_eq!(state.current_download_bytes(), None);
    state.apply(DownloadProgress::DownloadFailed {
        feed_id: "f".to_string(),
        episode_id: "e".to_string(),
        episode_title: "Ep".to_string(),
        error: "boom".to_string(),
    });
    assert_eq!(state.failed(), 1);
    assert_eq!(state.active_downloads(), 0);
    assert_eq!(state.label, "Ep failed: boom");
    state.apply(DownloadProgress::FeedFinished {
        feed_id: "f".to_string(),
        feed_title: "Show".to_string(),
        queued: 0,
        downloaded: 0,
        failed: 2,
    });
    assert_eq!(state.failed(), 3);
    assert_eq!(state.syncing_feeds(), 0);
}

#[test]
fn monitor_texts_and_spinner() {
    let mut state = ProgressState::default();
    assert_eq!(state.monitor_label("fallback"), "fallback");
    assert_eq!(state.spinner(), "|");
    state.tick();
    assert_eq!(state.spinner(), "/");
    state.tick();
    state.tick();
    assert_eq!(state.spinner(), "\\");
    state.apply(DownloadProgress::FeedStarted { feed_id: "f".to_string(), feed_title: "Show".to_string() });
    let lines = state.monitor_lines();
    assert_eq!(lines.sync, "\\ 1 feed(s)");
    assert_eq!(lines.queue, "0/0");
    assert_eq!(lines.downloads, "0");
    assert!(!lines.converting);
    assert_eq!(lines.detail, "done: 0/0   failed: 0   pending: 0   active: 0");
    assert_eq!(state.overall_fraction(), (0, 0));
}

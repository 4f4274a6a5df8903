use podcast_downloader::console::{Command, Console, InputMode, Panel, Spawn, TaskEvent};
use podcast_downloader::model::{
    AudioEncoderStatus, CheckSummary, EpisodeRecord, EpisodeStatus, FeedSubscription, LibraryStats,
    PodcastError, PodcastSearchResult,
};
use podcast_downloader::screen::{KeyCode, KeyPress};

fn press(code: KeyCode) -> KeyPress {
    KeyPress { code, control: false, alt: false, super_key: false }
}

fn show(id: &str, title: &str) -> FeedSubscription {
    FeedSubscription {
        id: id.to_string(),
        feed_url: String::new(),
        raw_title: title.to_string(),
        normalized_title: title.to_string(),
        site_url: None,
        description: None,
        artwork_url: None,
        retention_limit: None,
        created_at: String::new(),
        updated_at: String::new(),
        last_checked_at: None,
    }
}

fn stored(id: &str, status: EpisodeStatus) -> EpisodeRecord {
    EpisodeRecord {
        id: id.to_string(),
        feed_id: "f".to_string(),
        episode_key: id.to_string(),
        raw_title: id.to_string(),
        normalized_title: format!("Title {id}"),
        raw_author: None,
        published_at: None,
        media_url: String::new(),
        media_content_type: None,
        media_length_bytes: None,
        status,
        file_path: None,
        first_seen_at: String::new(),
        downloaded_at: None,
        deleted_at: None,
        last_error: None,
    }
}

fn stats() -> LibraryStats {
    LibraryStats { feeds: 0, episodes: 0, downloaded: 0 }
}

fn missing() -> AudioEncoderStatus {
    AudioEncoderStatus::Missing { path: "ffmpeg".to_string() }
}

#[test]
fn opening_with_feeds_checks_them_all() {
    let (console, spawn) = Console::new(vec![show("f", "Show")], stats(), missing());
    assert!(matches!(spawn, Some(Spawn::CheckAll)));
    assert!(console.check_running);
    assert_eq!(console.progress.label, "Checking watched shows...");
    let (idle, none) = Console::new(Vec::new(), stats(), missing());
    assert!(none.is_none());
    assert_eq!(idle.status, "Type a podcast name, then press Enter to search.");
    assert_eq!(idle.input_mode, InputMode::Search);
}

#[test]
fn typing_and_searching() {
    let (mut console, _) = Console::new(Vec::new(), stats(), missing());
    for c in "  cat ".chars() {
        console.handle_key(press(KeyCode::Char(c)));
    }
    console.handle_key(press(KeyCode::Char('s')));
    console.handle_key(press(KeyCode::Backspace));
    assert_eq!(console.search_query, "  cat ");
    match console.handle_key(press(KeyCode::Enter)) {
        Command::Search(q) => assert_eq!(q, "cat"),
        other => panic!("unexpected {other:?}"),
    }
    assert_eq!(console.status, "Searching for \"cat\"...");
    console.search_finished(vec![PodcastSearchResult {
        title: "Cat Show".to_string(),
        author: None,
        feed_url: Some("https://example.com/cat.xml".to_string()),
        artwork_url: None,
        apple_url: None,
    }]);
    assert_eq!(console.status, "Found 1 result(s). Select one and press Subscribe.");
    assert_eq!(console.input_mode, InputMode::Normal);
    match console.handle_key(press(KeyCode::Char('a'))) {
        Command::Subscribe(u) => assert_eq!(u, "https://example.com/cat.xml"),
        other => panic!("unexpected {other:?}"),
    }
}

#[test]
fn empty_search_is_refused() {
    let (mut console, _) = Console::new(Vec::new(), stats(), missing());
    console.handle_key(press(KeyCode::Char(' ')));
    assert!(matches!(console.handle_key(press(KeyCode::Enter)), Command::Nothing));
    assert_eq!(console.status, "Search query is empty.");
}

#[test]
fn subscribing_selects_and_checks_the_feed() {
    let (mut console, _) = Console::new(Vec::new(), stats(), missing());
    console.feeds_refreshed(vec![show("a", "A"), show("b", "B")], stats());
    assert_eq!(console.status, "Watching 2 show(s).");
    let spawn = console.subscribed(show("b", "B"));
    assert!(matches!(spawn, Some(Spawn::CheckFeed(ref f)) if f.id == "b"));
    assert_eq!(console.selected_feed, 1);
    assert_eq!(console.panel, Panel::Watching);
    assert_eq!(console.progress.label, "Checking B...");
    let again = console.start_check_all();
    assert!(again.is_none());
    assert_eq!(console.status, "A check is already running.");
    console.subscribe_failed(&PodcastError::DuplicateFeed("u".to_string()));
    assert_eq!(console.status, "Subscribe failed: duplicate feed url: u");
}

#[test]
fn downloads_wait_for_a_running_check() {
    let (mut console, spawn) = Console::new(vec![show("f", "Show")], stats(), missing());
    assert!(spawn.is_some());
    console.episodes_opened(&show("f", "Show"), vec![stored("e1", EpisodeStatus::SkippedInitial), stored("e2", EpisodeStatus::Downloaded)]);
    assert_eq!(console.status, "2 episode record(s) for Show.");
    assert_eq!(console.panel, Panel::Episodes);
    console.handle_key(press(KeyCode::Esc));
    assert_eq!(console.input_mode, InputMode::Normal);
    assert!(matches!(console.handle_key(press(KeyCode::Char('d'))), Command::Nothing));
    assert_eq!(console.pending_download_ids, vec!["e1".to_string()]);
    assert_eq!(console.episodes[0].status, EpisodeStatus::Pending);
    assert_eq!(console.progress.label, "Queued Title e1");
    console.handle_key(press(KeyCode::Char('d')));
    assert_eq!(console.status, "Episode is already queued.");
    console.handle_key(press(KeyCode::Down));
    console.handle_key(press(KeyCode::Char('d')));
    assert_eq!(console.status, "Episode is already downloaded.");

    let event = TaskEvent::CheckedAll(Ok(CheckSummary {
        feeds_checked: 1,
        discovered: 0,
        queued: 0,
        downloaded: 0,
        skipped_initial: 0,
        failed: 0,
        deleted_by_retention: 0,
        feed_summaries: Vec::new(),
        errors: Vec::new(),
    }));
    let reload = console.task_finished(&event);
    assert!(reload.feeds);
    assert_eq!(reload.episodes_of.as_deref(), Some("f"));
    assert!(!console.check_running);
    console.report_task(&event);
    assert_eq!(console.status, "Checked 1 show(s): 0 downloaded, 0 queued, 0 failed.");
    match console.start_pending_downloads_if_idle() {
        Some(Spawn::Downloads(ids)) => assert_eq!(ids, vec!["e1".to_string()]),
        other => panic!("unexpected {other:?}"),
    }
    assert!(console.download_running);
    assert!(console.pending_download_ids.is_empty());

    let failed = TaskEvent::DownloadedEpisodes {
        episode_ids: vec!["e1".to_string()],
        result: Err(PodcastError::Http("500".to_string())),
    };
    let reload = console.task_finished(&failed);
    assert!(!reload.feeds);
    assert!(!console.progress_open);
    console.report_task(&failed);
    assert_eq!(console.status, "Download failed: http error: 500");
    assert_eq!(console.episodes[0].status, EpisodeStatus::Failed);
}

#[test]
fn panels_keys_and_quitting() {
    let (mut console, _) = Console::new(Vec::new(), stats(), missing());
    console.handle_key(press(KeyCode::Tab));
    assert_eq!(console.panel, Panel::Watching);
    assert_eq!(console.input_mode, InputMode::Normal);
    console.handle_key(press(KeyCode::BackTab));
    assert_eq!(console.panel, Panel::Search);
    console.handle_key(press(KeyCode::Char('?')));
    assert!(console.help_open);
    console.handle_key(press(KeyCode::Char('q')));
    assert!(!console.should_quit);
    console.handle_key(press(KeyCode::Esc));
    assert!(!console.help_open);
    assert!(matches!(console.handle_key(press(KeyCode::Char('r'))), Command::RefreshFeeds));
    assert!(matches!(console.handle_key(press(KeyCode::Char('e'))), Command::RefreshEncoder));
    console.handle_key(press(KeyCode::Char('u')));
    assert_eq!(console.status, "No watched show selected.");
    console.handle_key(KeyPress { code: KeyCode::Char('c'), control: true, alt: false, super_key: false });
    assert!(console.should_quit);
}

#[test]
fn unwatching_asks_first() {
    let (mut console, _) = Console::new(vec![show("f", "Show")], stats(), missing());
    console.handle_key(press(KeyCode::Esc));
    console.handle_key(press(KeyCode::Tab));
    assert!(matches!(console.handle_key(press(KeyCode::Char('y'))), Command::Nothing));
    console.handle_key(press(KeyCode::Char('u')));
    assert_eq!(console.input_mode, InputMode::ConfirmUnwatch);
    assert_eq!(console.status, "Unwatch Show? Press y to confirm, n to cancel.");
    console.handle_key(press(KeyCode::Char('n')));
    assert_eq!(console.status, "Unwatch cancelled.");
    console.handle_key(press(KeyCode::Char('u')));
    match console.handle_key(press(KeyCode::Char('y'))) {
        Command::Unwatch(f) => assert_eq!(f.id, "f"),
        other => panic!("unexpected {other:?}"),
    }
    console.unwatched("Show");
    assert_eq!(console.status, "Unwatched Show.");
    assert!(console.episodes.is_empty());
}

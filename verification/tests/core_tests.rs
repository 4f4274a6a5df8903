use podcast_downloader::model::{AppErrorDto, CoreConfig, EpisodeStatus, PodcastError};

#[test]
fn statuses_round_trip_through_their_text() {
    for status in [
        EpisodeStatus::Pending,
        EpisodeStatus::Downloaded,
        EpisodeStatus::SkippedInitial,
        EpisodeStatus::Failed,
        EpisodeStatus::Deleted,
    ] {
        assert_eq!(EpisodeStatus::from_db(status.as_str()), status);
    }
    assert_eq!(EpisodeStatus::SkippedInitial.as_str(), "skipped_initial");
    assert_eq!(EpisodeStatus::from_db("something else"), EpisodeStatus::Pending);
}

#[test]
fn frontend_errors_carry_kind_and_message() {
    let error = AppErrorDto::from_error(&PodcastError::NotFound("episode".to_string()));
    assert_eq!(error.kind, "not_found");
    assert_eq!(error.message, "not found: episode");
    let encoder = AppErrorDto::from_error(&PodcastError::Mp3EncoderUnavailable);
    assert_eq!(encoder.kind, "mp3_encoder_unavailable");
    assert_eq!(encoder.message, "mp3 conversion is required but no encoder is configured");
    assert_eq!(PodcastError::DuplicateFeed("u".to_string()).message(), "duplicate feed url: u");
}

#[test]
fn configuration_needs_positive_concurrency() {
    let mut config = CoreConfig::new("podcasts.db".to_string(), "downloads".to_string());
    assert!(config.validate().is_ok());
    assert_eq!(config.max_concurrent_downloads, 2);
    config.max_concurrent_downloads = 0;
    match config.validate() {
        Err(PodcastError::InvalidConfig(m)) => {
            assert_eq!(m, "max_concurrent_downloads must be greater than zero")
        }
        other => panic!("unexpected {other:?}"),
    }
    config.max_concurrent_feed_fetches = 0;
    match config.validate() {
        Err(PodcastError::InvalidConfig(m)) => {
            assert_eq!(m, "max_concurrent_feed_fetches must be greater than zero")
        }
        other => panic!("unexpected {other:?}"),
    }
}

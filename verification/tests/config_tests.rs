use podcast_downloader::config_file::FileConfig;

#[test]
fn relative_paths_are_resolved_from_base_dir() {
    let base = "C:/podcasts";
    let config = FileConfig {
        database_path: "db.sqlite".to_string(),
        download_dir: "library".to_string(),
        ..FileConfig::default()
    }
    .into_core_config(base);

    assert!(config.database_path.ends_with("db.sqlite"));
    assert!(config.download_dir.ends_with("library"));
}

#[test]
fn absolute_paths_stay_and_relative_ones_join_the_base() {
    let config = FileConfig {
        database_path: "/var/lib/podcasts.db".to_string(),
        download_dir: "library".to_string(),
        mp3_encoder_path: Some("bin/lame".to_string()),
        ..FileConfig::default()
    }
    .into_core_config("/home/me/");
    assert_eq!(config.database_path, "/var/lib/podcasts.db");
    assert_eq!(config.download_dir, "/home/me/library");
    assert_eq!(config.log_file_path.as_deref(), Some("/home/me/podcast_downloader.log"));
    assert_eq!(config.mp3_encoder_path.as_deref(), Some("/home/me/bin/lame"));
    assert_eq!(config.http_timeout_seconds, 30);
    assert_eq!(config.apple_search_base_url, "https://itunes.apple.com/search");
}

#[test]
fn ffmpeg_path_wins_over_encoder_path() {
    let config = FileConfig {
        ffmpeg_path: Some("/usr/bin/ffmpeg".to_string()),
        mp3_encoder_path: Some("lame".to_string()),
        ..FileConfig::default()
    }
    .into_core_config("/base");
    assert_eq!(config.mp3_encoder_path.as_deref(), Some("/usr/bin/ffmpeg"));
}

#[test]
fn detected_ffmpeg_is_taken_only_when_none_is_configured() {
    let mut config = FileConfig::default();
    config.set_detected_ffmpeg_path(Some("C:/ffmpeg/bin/ffmpeg.exe".to_string()));
    assert_eq!(config.ffmpeg_path.as_deref(), Some("C:/ffmpeg/bin/ffmpeg.exe"));

    let mut configured = FileConfig { mp3_encoder_path: Some("lame".to_string()), ..FileConfig::default() };
    configured.set_detected_ffmpeg_path(Some("other".to_string()));
    assert_eq!(configured.ffmpeg_path, None);

    let mut nothing = FileConfig::default();
    nothing.set_detected_ffmpeg_path(None);
    assert_eq!(nothing.ffmpeg_path, None);
}

#[test]
fn default_settings() {
    let config = FileConfig::default();
    assert_eq!(config.database_path, "podcasts.db");
    assert_eq!(config.download_dir, "downloads");
    assert_eq!(config.country, "US");
    assert_eq!(config.default_retention_limit, 4);
    assert_eq!(config.max_concurrent_feed_fetches, 4);
    assert_eq!(config.max_concurrent_downloads, 2);
    assert!(config.ensure_mp3);
}

#[test]
fn settings_live_in_config_toml() {
    assert_eq!(podcast_downloader::config_file::config_path("/data"), "/data/config.toml");
    assert_eq!(podcast_downloader::config_file::config_path("/data/"), "/data/config.toml");
}

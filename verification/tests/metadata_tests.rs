use podcast_downloader::metadata::{
    date_prefix, episode_key, filename_component, media_extension, normalize_title, short_hash,
    truncate_chars,
};

#[test]
fn normalizes_whitespace() {
    assert_eq!(normalize_title("  A   Good\tEpisode  "), "A Good Episode");
}

#[test]
fn derives_episode_key_from_guid_or_media_url() {
    assert_eq!(episode_key(Some("abc"), "https://example.com/a.mp3"), "abc");
    assert!(episode_key(None, "https://example.com/a.mp3").starts_with("media:"));
}

#[test]
fn selects_extension_from_url_then_content_type_then_default() {
    assert_eq!(media_extension("https://example.com/a.M4A?x=1", None), "m4a");
    assert_eq!(media_extension("https://example.com/a", Some("video/mp4")), "mp4");
    assert_eq!(media_extension("https://example.com/a", None), "unknown");
}

#[test]
fn sanitizes_and_truncates_filename_components() {
    let value = filename_component(" bad:/name with lots of text ", 8);
    assert_eq!(value.chars().count(), 8);
    assert!(!value.contains(':'));
}

#[test]
fn blank_titles_become_untitled() {
    assert_eq!(normalize_title(" \t\n "), "Untitled");
    assert_eq!(normalize_title(""), "Untitled");
}

#[test]
fn short_hash_is_the_start_of_the_sha256_digest() {
    assert_eq!(short_hash("abc"), "ba7816bf");
    assert_eq!(short_hash("https://example.com/a.mp3"), "f0494a59");
}

#[test]
fn media_key_uses_the_hash_of_the_media_url() {
    assert_eq!(episode_key(None, "https://example.com/a.mp3"), "media:f0494a59");
    assert_eq!(episode_key(Some("   "), "https://example.com/a.mp3"), "media:f0494a59");
    assert_eq!(episode_key(Some("  guid-1 "), "https://example.com/a.mp3"), "guid-1");
}

#[test]
fn date_prefix_takes_the_day_or_reports_unknown() {
    assert_eq!(date_prefix(Some("2026-06-29T00:00:00Z")), "2026-06-29");
    assert_eq!(date_prefix(Some("2026")), "unknown-date");
    assert_eq!(date_prefix(None), "unknown-date");
    assert_eq!(date_prefix(Some("广播广播广播x")), "unknown-date");
}

#[test]
fn extension_comes_from_the_url_path_only() {
    assert_eq!(media_extension("https://example.com/show.mp3/episode", None), "unknown");
    assert_eq!(media_extension("https://example.com/a.ogg#frag", Some("audio/mpeg")), "ogg");
    assert_eq!(media_extension("https://example.com/a.bin", Some("AUDIO/X-M4A")), "m4a");
    assert_eq!(media_extension("not a url", Some("audio/wav")), "wav");
    assert_eq!(media_extension("https://example.com/a.exe", Some("application/ogg")), "ogg");
    assert_eq!(media_extension("https://example.com/a.aac", None), "aac");
}

#[test]
fn filename_components_drop_unsafe_characters() {
    assert_eq!(filename_component("Show: Name", 70), "Show Name");
    assert_eq!(filename_component("Episode / One", 120), "Episode One");
    assert_eq!(filename_component("...", 10), "Untitled");
    assert_eq!(filename_component("  a  b  ", 10), "a b");
}

#[test]
fn truncation_counts_characters() {
    assert_eq!(truncate_chars("得体广播站", 2), "得体");
    assert_eq!(truncate_chars("abc", 10), "abc");
    assert_eq!(truncate_chars("abc", 0), "");
}

#[test]
fn normalized_titles_are_tidy_and_stable() {
    for raw in ["  Episode \t 1 \n Part\u{a0}Two  ", "", "   ", "One"] {
        let once = normalize_title(raw);
        assert!(!once.is_empty());
        assert_eq!(once.trim(), once);
        assert!(!once.contains("  "));
        assert_eq!(normalize_title(&once), once);
    }
    assert_eq!(normalize_title("  Episode \t 1 \n Part\u{a0}Two  "), "Episode 1 Part Two");
}

use podcast_downloader::feed_input::check_feed_input;
use podcast_downloader::feeds::{
    first_alternate_link, is_media_link, parse_feed, sort_newest_first, FeedLink, ParsedEpisode,
};
use podcast_downloader::model::PodcastError;

const BASIC_RSS: &str = r#"<?xml version="1.0" encoding="UTF-8"?>
<rss version="2.0">
  <channel>
    <title>Example Show</title>
    <link>https://example.com/show</link>
    <description>A show used in tests.</description>
    <item>
      <guid>episode-3</guid>
      <title>Newest Episode</title>
      <pubDate>Mon, 29 Jun 2026 10:00:00 GMT</pubDate>
      <enclosure url="https://example.com/episode-3.mp3" length="123" type="audio/mpeg"/>
    </item>
    <item>
      <guid>episode-2</guid>
      <title>Middle Episode</title>
      <pubDate>Sun, 28 Jun 2026 10:00:00 GMT</pubDate>
      <enclosure url="https://example.com/episode-2.mp3" length="123" type="audio/mpeg"/>
    </item>
    <item>
      <guid>episode-1</guid>
      <title>Oldest Episode</title>
      <pubDate>Sat, 27 Jun 2026 10:00:00 GMT</pubDate>
      <enclosure url="https://example.com/episode-1.mp3" length="123" type="audio/mpeg"/>
    </item>
    <item>
      <guid>no-media</guid>
      <title>Text only</title>
    </item>
  </channel>
</rss>"#;

const BASIC_ATOM: &str = r#"<?xml version="1.0" encoding="utf-8"?>
<feed xmlns="http://www.w3.org/2005/Atom">
  <title>Atom Show</title>
  <id>urn:example:atom-show</id>
  <updated>2026-06-29T10:00:00Z</updated>
  <link rel="alternate" href="https://example.com/atom"/>
  <entry>
    <title>Atom Episode</title>
    <id>urn:example:atom-episode</id>
    <updated>2026-06-29T10:00:00Z</updated>
    <link rel="enclosure" type="audio/mpeg" length="42" href="https://example.com/atom.mp3"/>
  </entry>
</feed>"#;

#[test]
fn parses_rss_feed_with_enclosure() {
    let parsed = parse_feed(BASIC_RSS.as_bytes()).unwrap();
    assert_eq!(parsed.normalized_title, "Example Show");
    assert_eq!(parsed.episodes.len(), 3);
    assert_eq!(parsed.episodes[0].media_content_type.as_deref(), Some("audio/mpeg"));
}

#[test]
fn parses_atom_feed_with_audio_link() {
    let parsed = parse_feed(BASIC_ATOM.as_bytes()).unwrap();
    assert_eq!(parsed.normalized_title, "Atom Show");
    assert_eq!(parsed.episodes.len(), 1);
}

#[test]
fn parsed_episode_fields() {
    let parsed = parse_feed(BASIC_RSS.as_bytes()).unwrap();
    let first = &parsed.episodes[0];
    assert_eq!(first.episode_key, "episode-3");
    assert_eq!(first.normalized_title, "Newest Episode");
    assert_eq!(first.media_url, "https://example.com/episode-3.mp3");
    assert_eq!(first.media_length_bytes, Some(123));
    assert!(first.published_at.as_deref().unwrap().starts_with("2026-06-29T10:00:00"));
    assert_eq!(parsed.description.as_deref(), Some("A show used in tests."));
    assert!(parsed.site_url.as_deref().unwrap().starts_with("https://example.com/show"));
    let atom = parse_feed(BASIC_ATOM.as_bytes()).unwrap();
    assert_eq!(atom.episodes[0].media_length_bytes, Some(42));
}

#[test]
fn garbage_is_a_feed_parse_error() {
    assert!(matches!(parse_feed(b"not a feed at all"), Err(PodcastError::FeedParse(_))));
}

fn link(href: &str, rel: Option<&str>, media_type: Option<&str>) -> FeedLink {
    FeedLink {
        href: href.to_string(),
        rel: rel.map(str::to_string),
        media_type: media_type.map(str::to_string),
        length: None,
    }
}

#[test]
fn media_links_are_enclosures_or_audio_video() {
    assert!(is_media_link(&link("a", Some("enclosure"), None)));
    assert!(is_media_link(&link("a", None, Some("Audio/MPEG"))));
    assert!(is_media_link(&link("a", Some("alternate"), Some("video/mp4"))));
    assert!(!is_media_link(&link("a", Some("alternate"), Some("text/html"))));
}

#[test]
fn site_link_prefers_alternate_links() {
    let links = vec![link("self", Some("self"), None), link("alt", None, None)];
    assert_eq!(first_alternate_link(&links).as_deref(), Some("alt"));
    let only_self = vec![link("self", Some("self"), None)];
    assert_eq!(first_alternate_link(&only_self).as_deref(), Some("self"));
    assert_eq!(first_alternate_link(&Vec::new()), None);
}

fn dated(title: &str, date: Option<&str>) -> ParsedEpisode {
    ParsedEpisode {
        episode_key: title.to_string(),
        raw_title: title.to_string(),
        normalized_title: title.to_string(),
        raw_author: None,
        published_at: date.map(str::to_string),
        media_url: String::new(),
        media_content_type: None,
        media_length_bytes: None,
    }
}

#[test]
fn sorts_newest_first_with_undated_last() {
    let mut episodes = vec![
        dated("b", Some("2026-01-01")),
        dated("none", None),
        dated("c", Some("2026-03-01")),
        dated("a", Some("2026-01-01")),
    ];
    sort_newest_first(&mut episodes);
    let titles: Vec<&str> = episodes.iter().map(|e| e.raw_title.as_str()).collect();
    assert_eq!(titles, vec!["c", "a", "b", "none"]);
}

#[test]
fn equal_episodes_keep_their_order() {
    let mut first = dated("same", Some("2026-01-01"));
    first.episode_key = "first".to_string();
    let mut second = dated("same", Some("2026-01-01"));
    second.episode_key = "second".to_string();
    let mut episodes = vec![first, dated("newer", Some("2026-02-01")), second];
    sort_newest_first(&mut episodes);
    let keys: Vec<&str> = episodes.iter().map(|e| e.episode_key.as_str()).collect();
    assert_eq!(keys, vec!["newer", "first", "second"]);
}

#[test]
fn ordinary_feeds_pass_the_input_check() {
    assert!(check_feed_input(BASIC_RSS.as_bytes()));
    assert!(check_feed_input(BASIC_ATOM.as_bytes()));
    assert!(check_feed_input(b"not a feed at all"));
    assert!(check_feed_input(
        "<rss><channel><title><![CDATA[Caf\u{e9} \u{ff11}\u{ff12} \u{661}]]></title>\
         <description>On encoding  video, id 12345678901234567890</description>\
         <item><itunes:duration>01:02:03</itunes:duration><title>A &#8217; B</title>\
         <media:content url=\"https://example.com/a.mp3?id=99999999999999999999\" start=\"12.5\"/>\
         </item></channel></rss>"
            .as_bytes()
    ));
    assert!(check_feed_input(b"<?xml version=\"1.0\" encoding = 'ISO-8859-1'?><rss/>"));
    assert!(check_feed_input(b"<?xml version=\"1.0\" encoding=\"windows-1252\"?><rss/>"));
    assert!(check_feed_input(b"<?xml version=\"1.0\" encoding=\"Shift_JIS\"?><rss/>"));
    assert!(check_feed_input(b"<?xml version=\"1.0\" encoding=\"KOI8-R\"?><rss/>"));
    assert!(check_feed_input(b"<itunes:duration unit=\"s\">1800</itunes:duration>"));
}

#[test]
fn input_check_refuses_play_times_the_parser_cannot_read() {
    // Twenty digits overflow 64 bits.
    assert!(!check_feed_input(b"<itunes:duration>12345678901234567890</itunes:duration>"));
    assert!(!check_feed_input(b"<media:content start=\"12345678901234567890\"/>"));
    // Arabic-Indic digits are decimal digits to the parser's pattern.
    assert!(!check_feed_input("<itunes:duration>\u{661}\u{662}</itunes:duration>".as_bytes()));
    // A digit written as a character reference.
    assert!(!check_feed_input(b"<itunes:duration>&#49;2</itunes:duration>"));
    assert!(!check_feed_input(b"<media:thumbnail time=\"&#x661;\"/>"));
    // Text that runs on across a comment.
    assert!(!check_feed_input(b"<itunes:duration>12345678<!-- -->12345678</itunes:duration>"));
    // Another declared encoding, and a UTF-16 byte order mark.
    assert!(!check_feed_input(b"<?xml version=\"1.0\" encoding=\"UTF-16\"?><rss/>"));
    assert!(!check_feed_input(b"\xff\xfe<\x00r\x00"));
    // A play time behind a quoted attribute is still found.
    assert!(!check_feed_input(b"<itunes:duration a=\"x>y\">12345678901234567890</itunes:duration>"));
}

use podcast_downloader::discovery::{search_parameters, search_results, ApplePodcast};

fn podcast() -> ApplePodcast {
    ApplePodcast {
        collection_name: None,
        track_name: None,
        artist_name: None,
        feed_url: None,
        artwork_url600: None,
        artwork_url100: None,
        collection_view_url: None,
        track_view_url: None,
    }
}

#[test]
fn search_answers_become_results() {
    let item = ApplePodcast {
        collection_name: Some("  Example   Show ".to_string()),
        track_name: Some("Track".to_string()),
        artist_name: Some("Someone".to_string()),
        feed_url: Some("https://example.com/feed.xml".to_string()),
        artwork_url600: None,
        artwork_url100: Some("small.png".to_string()),
        collection_view_url: None,
        track_view_url: Some("https://podcasts.apple.com/x".to_string()),
    };
    let results = search_results(vec![item, podcast()]);
    assert_eq!(results.len(), 2);
    assert_eq!(results[0].title, "Example Show");
    assert_eq!(results[0].author.as_deref(), Some("Someone"));
    assert_eq!(results[0].feed_url.as_deref(), Some("https://example.com/feed.xml"));
    assert_eq!(results[0].artwork_url.as_deref(), Some("small.png"));
    assert_eq!(results[0].apple_url.as_deref(), Some("https://podcasts.apple.com/x"));
    assert_eq!(results[1].title, "Untitled Podcast");
    assert_eq!(results[1].feed_url, None);
}

#[test]
fn search_asks_for_podcasts_in_a_country() {
    let params = search_parameters("example", "GB");
    let pairs: Vec<(&str, &str)> = params.iter().map(|(k, v)| (k.as_str(), v.as_str())).collect();
    assert_eq!(pairs, vec![("media", "podcast"), ("entity", "podcast"), ("term", "example"), ("country", "GB")]);
}

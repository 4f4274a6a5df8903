use vstd::prelude::*;

use crate::metadata::{normalize_title, normalized_title};
use crate::model::PodcastSearchResult;
use crate::text::owned;

verus! {

/// One podcast of a directory search answer, with the fields the library reads.
#[derive(Debug, Clone, PartialEq, Eq)]
pub struct ApplePodcast {
    pub collection_name: Option<String>,
    pub track_name: Option<String>,
    pub artist_name: Option<String>,
    pub feed_url: Option<String>,
    pub artwork_url600: Option<String>,
    pub artwork_url100: Option<String>,
    pub collection_view_url: Option<String>,
    pub track_view_url: Option<String>,
}

/// The first of two optional values that is present.
pub open spec fn either(a: Option<String>, b: Option<String>) -> Option<String> {
    match a {
        Some(x) => Some(x),
        None => b,
    }
}

/// The title a search result shows before normalizing: the collection name, else the
/// track name, else "Untitled Podcast".
pub open spec fn raw_search_title(item: ApplePodcast) -> Seq<char> {
    match either(item.collection_name, item.track_name) {
        Some(t) => t@,
        None => "Untitled Podcast"@,
    }
}

/// The search result for one podcast of the answer.
pub open spec fn is_search_result_of(r: PodcastSearchResult, item: ApplePodcast) -> bool {
    &&& r.title@ == normalized_title(raw_search_title(item))
    &&& r.author == item.artist_name
    &&& r.feed_url == item.feed_url
    &&& r.artwork_url == either(item.artwork_url600, item.artwork_url100)
    &&& r.apple_url == either(item.collection_view_url, item.track_view_url)
}

/// A search result shows the answer's 600px artwork when the answer has it, and its 100px
/// artwork only when it has no 600px one.
pub proof fn lemma_search_artwork_prefers_large(r: PodcastSearchResult, item: ApplePodcast)
    requires
        is_search_result_of(r, item),
    ensures
        item.artwork_url600 is Some ==> r.artwork_url == item.artwork_url600,
        item.artwork_url600 is None ==> r.artwork_url == item.artwork_url100,
        item.collection_view_url is Some ==> r.apple_url == item.collection_view_url,
        item.collection_view_url is None ==> r.apple_url == item.track_view_url,
        item.collection_name matches Some(n) ==> r.title@ == normalized_title(n@),
        r.feed_url == item.feed_url && r.author == item.artist_name,
{
}

fn first_of(a: Option<String>, b: Option<String>) -> (r: Option<String>)
    ensures
        r == either(a, b),
{
    match a {
        Some(x) => Some(x),
        None => b,
    }
}

pub fn search_result_of(item: ApplePodcast) -> (r: PodcastSearchResult)
    ensures
        is_search_result_of(r, item),
{
    let title = match first_of(item.collection_name, item.track_name) {
        Some(t) => normalize_title(t.as_str()),
        None => normalize_title("Untitled Podcast"),
    };
    PodcastSearchResult {
        title,
        author: item.artist_name,
        feed_url: item.feed_url,
        artwork_url: first_of(item.artwork_url600, item.artwork_url100),
        apple_url: first_of(item.collection_view_url, item.track_view_url),
    }
}

/// The search results of an answer, one per podcast, in the answer's order.
pub fn search_results(items: Vec<ApplePodcast>) -> (r: Vec<PodcastSearchResult>)
    ensures
        r@.len() == items@.len(),
        forall|i: int| 0 <= i < r@.len() ==> is_search_result_of(#[trigger] r@[i], items@[i]),
{
    let mut out: Vec<PodcastSearchResult> = Vec::new();
    for item in it: items
        invariant
            it.seq() == items@,
            out@.len() == it.index(),
            forall|k: int| 0 <= k < it.index() ==> is_search_result_of(#[trigger] out@[k], items@[k]),
    {
        out.push(search_result_of(item));
    }
    out
}

/// The query of a podcast search for `query` in the store of `country`.
pub fn search_parameters(query: &str, country: &str) -> (r: Vec<(String, String)>)
    ensures
        r@.len() == 4,
        r@[0].0@ == "media"@ && r@[0].1@ == "podcast"@,
        r@[1].0@ == "entity"@ && r@[1].1@ == "podcast"@,
        r@[2].0@ == "term"@ && r@[2].1@ == query@,
        r@[3].0@ == "country"@ && r@[3].1@ == country@,
{
    let mut r: Vec<(String, String)> = Vec::new();
    r.push((owned("media"), owned("podcast")));
    r.push((owned("entity"), owned("podcast")));
    r.push((owned("term"), owned(query)));
    r.push((owned("country"), owned(country)));
    r
}

} // verus!

use vstd::prelude::*;

use crate::feed_input::parser_safe_input;
use crate::metadata::{episode_key, episode_key_of, normalize_title, normalized_title};
use crate::model::{PodcastError, Result};
use crate::ordering::{
    lemma_insert_before_tail, lemma_insert_multiset, lemma_stable_sort, lemma_stable_sort_step,
    stable_insert, stable_sort, strict_weak,
};
use crate::text::{
    ascii_lower, compare_text, has_prefix, lemma_text_lt_asymmetric, lemma_text_lt_irreflexive,
    lemma_text_lt_total, lemma_text_lt_transitive, owned, same_text, starts_with, text_lt,
    to_ascii_lower, Order,
};

verus! {

// ---------------------------------------------------------------------------
// The parts of a feed document that the library reads
// ---------------------------------------------------------------------------

/// A link of a feed or entry.
#[derive(Debug, PartialEq, Eq)]
pub struct FeedLink {
    pub href: String,
    pub rel: Option<String>,
    pub media_type: Option<String>,
    pub length: Option<u64>,
}

/// One media object content of an entry (Media RSS).
#[derive(Debug, PartialEq, Eq)]
pub struct FeedMedia {
    pub url: Option<String>,
    pub content_type: Option<String>,
    pub size: Option<u64>,
}

/// An entry of a feed, with its dates as RFC 3339 text in UTC.
#[derive(Debug)]
pub struct FeedEntry {
    pub id: String,
    pub title: Option<String>,
    pub published: Option<String>,
    pub updated: Option<String>,
    pub authors: Vec<String>,
    pub links: Vec<FeedLink>,
    pub content_src: Option<FeedLink>,
    pub media: Vec<FeedMedia>,
}

/// A parsed feed document.
#[derive(Debug)]
pub struct FeedDocument {
    pub title: Option<String>,
    pub description: Option<String>,
    pub icon: Option<String>,
    pub logo: Option<String>,
    pub links: Vec<FeedLink>,
    pub entries: Vec<FeedEntry>,
}

#[verifier::external_type_specification]
#[verifier::external_body]
pub struct ExFeed(feed_rs::model::Feed);

#[verifier::external_type_specification]
#[verifier::external_body]
pub struct ExEntry(feed_rs::model::Entry);

#[verifier::external_type_specification]
#[verifier::external_body]
pub struct ExLink(feed_rs::model::Link);

#[verifier::external_type_specification]
#[verifier::external_body]
pub struct ExMediaContent(feed_rs::model::MediaContent);

/// A `feed_rs` link, field by field.
#[verifier::external_body]
fn link_of(link: &feed_rs::model::Link) -> FeedLink {
    FeedLink {
        href: link.href.clone(),
        rel: link.rel.clone(),
        media_type: link.media_type.clone(),
        length: link.length,
    }
}

/// A `feed_rs` media content, with its URL and media type as text.
#[verifier::external_body]
fn media_of(content: &feed_rs::model::MediaContent) -> FeedMedia {
    FeedMedia {
        url: content.url.as_ref().map(|u| u.to_string()),
        content_type: content.content_type.as_ref().map(|t| t.to_string()),
        size: content.size,
    }
}

/// A `feed_rs` entry, its dates written by `chrono` as RFC 3339 in UTC, its media objects'
/// contents in order.
#[verifier::external_body]
fn entry_of(e: &feed_rs::model::Entry) -> FeedEntry {
    FeedEntry {
        id: e.id.clone(),
        title: e.title.as_ref().map(|t| t.content.clone()),
        published: e.published.map(|d| d.with_timezone(&chrono::Utc).to_rfc3339()),
        updated: e.updated.map(|d| d.with_timezone(&chrono::Utc).to_rfc3339()),
        authors: e.authors.iter().map(|p| p.name.clone()).collect(),
        links: e.links.iter().map(link_of).collect(),
        content_src: e.content.as_ref().and_then(|c| c.src.as_ref()).map(link_of),
        media: e.media.iter().flat_map(|m| m.content.iter()).map(media_of).collect(),
    }
}

/// A `feed_rs` feed, field by field.
#[verifier::external_body]
fn document_of(f: &feed_rs::model::Feed) -> FeedDocument {
    FeedDocument {
        title: f.title.as_ref().map(|t| t.content.clone()),
        description: f.description.as_ref().map(|t| t.content.clone()),
        icon: f.icon.as_ref().map(|i| i.uri.clone()),
        logo: f.logo.as_ref().map(|i| i.uri.clone()),
        links: f.links.iter().map(link_of).collect(),
        entries: f.entries.iter().map(entry_of).collect(),
    }
}

/// `doc` is a document that `feed_rs::parser::parse` can give for these bytes.
pub uninterp spec fn feed_reads_as(body: Seq<u8>, doc: FeedDocument) -> bool;

/// The parser gives no document for these bytes: it refuses them.
pub open spec fn feed_rejects(body: Seq<u8>) -> bool {
    forall|doc: FeedDocument| !#[trigger] feed_reads_as(body, doc)
}

/// `feed_rs::parser::parse` on the bytes of a feed, converted to the library's document,
/// or the parser's error text. Whether the parser refuses the bytes depends on them alone:
/// when it refuses them it gives no document for them; a document it gives is one it reads
/// from these bytes. Nothing more is claimed of the
/// document: the parser gives an entry that has neither an id nor a link a random UUID,
/// so the document is not a function of the bytes alone. The parser stops the program on
/// some play times it reads (see `parser_safe_input`); those bytes are left out.
#[verifier::external_body]
fn read_feed_document(body: &[u8]) -> (r: std::result::Result<FeedDocument, String>)
    requires
        parser_safe_input(body@),
    ensures
        r is Err ==> feed_rejects(body@),
        r matches Ok(doc) ==> feed_reads_as(body@, doc),
{
    feed_rs::parser::parse(body).map(|f| document_of(&f)).map_err(|e| e.to_string())
}

// ---------------------------------------------------------------------------
// Media references
// ---------------------------------------------------------------------------

/// An audio or video media type (`audio/…` or `video/…`, any case).
pub open spec fn is_media_type(t: Seq<char>) -> bool {
    has_prefix(ascii_lower(t), "audio/"@) || has_prefix(ascii_lower(t), "video/"@)
}

fn media_type_is_audio_or_video(t: &str) -> (r: bool)
    ensures
        r == is_media_type(t@),
{
    let l = to_ascii_lower(t);
    starts_with(l.as_str(), "audio/") || starts_with(l.as_str(), "video/")
}

/// A link to media: an enclosure, or a link with an audio or video type.
pub open spec fn is_media_link_spec(link: FeedLink) -> bool {
    (link.rel is Some && link.rel->0@ == "enclosure"@) || (link.media_type is Some
        && is_media_type(link.media_type->0@))
}

pub fn is_media_link(link: &FeedLink) -> (r: bool)
    ensures
        r == is_media_link_spec(*link),
{
    if let Some(rel) = &link.rel {
        if same_text(rel.as_str(), "enclosure") {
            return true;
        }
    }
    match &link.media_type {
        Some(t) => media_type_is_audio_or_video(t.as_str()),
        None => false,
    }
}

/// Where an entry's media lives.
#[derive(Debug, PartialEq, Eq)]
pub struct MediaRef {
    pub url: String,
    pub content_type: Option<String>,
    pub length: Option<u64>,
}

pub open spec fn media_ref_of_link(l: FeedLink) -> MediaRef {
    MediaRef { url: l.href, content_type: l.media_type, length: l.length }
}

/// The first media link.
pub open spec fn first_media_link(links: Seq<FeedLink>) -> Option<FeedLink>
    decreases links.len(),
{
    if links.len() == 0 {
        None
    } else if is_media_link_spec(links[0]) {
        Some(links[0])
    } else {
        first_media_link(links.drop_first())
    }
}

/// A media content that can be used: it has a URL, and its type, if any, is audio or video.
pub open spec fn usable_media(m: FeedMedia) -> bool {
    m.url is Some && (m.content_type is None || is_media_type(m.content_type->0@))
}

/// The first usable media content.
pub open spec fn first_usable_media(media: Seq<FeedMedia>) -> Option<FeedMedia>
    decreases media.len(),
{
    if media.len() == 0 {
        None
    } else if usable_media(media[0]) {
        Some(media[0])
    } else {
        first_usable_media(media.drop_first())
    }
}

/// The media of an entry: its first media link, else its content's source when that is a
/// media link, else its first usable media content.
pub open spec fn find_media_spec(e: FeedEntry) -> Option<MediaRef> {
    if first_media_link(e.links@) is Some {
        Some(media_ref_of_link(first_media_link(e.links@)->0))
    } else if e.content_src is Some && is_media_link_spec(e.content_src->0) {
        Some(media_ref_of_link(e.content_src->0))
    } else if first_usable_media(e.media@) is Some {
        let m = first_usable_media(e.media@)->0;
        Some(MediaRef { url: m.url->0, content_type: m.content_type, length: m.size })
    } else {
        None
    }
}

proof fn lemma_first_media_link(links: Seq<FeedLink>, i: int)
    requires
        0 <= i <= links.len(),
        forall|k: int| 0 <= k < i ==> !is_media_link_spec(#[trigger] links[k]),
    ensures
        first_media_link(links) == first_media_link(links.skip(i)),
    decreases i,
{
    if i > 0 {
        lemma_first_media_link(links.drop_first(), i - 1);
        assert(links.drop_first().skip(i - 1) == links.skip(i));
    } else {
        assert(links.skip(0) == links);
    }
}

proof fn lemma_first_usable_media(media: Seq<FeedMedia>, i: int)
    requires
        0 <= i <= media.len(),
        forall|k: int| 0 <= k < i ==> !usable_media(#[trigger] media[k]),
    ensures
        first_usable_media(media) == first_usable_media(media.skip(i)),
    decreases i,
{
    if i > 0 {
        lemma_first_usable_media(media.drop_first(), i - 1);
        assert(media.drop_first().skip(i - 1) == media.skip(i));
    } else {
        assert(media.skip(0) == media);
    }
}

fn clone_link_ref(l: &FeedLink) -> (r: MediaRef)
    ensures
        r == media_ref_of_link(*l),
{
    MediaRef { url: l.href.clone(), content_type: l.media_type.clone(), length: l.length }
}

pub fn find_media(entry: &FeedEntry) -> (r: Option<MediaRef>)
    ensures
        r == find_media_spec(*entry),
{
    let mut i: usize = 0;
    while i < entry.links.len()
        invariant
            i <= entry.links@.len(),
            forall|k: int| 0 <= k < i ==> !is_media_link_spec(#[trigger] entry.links@[k]),
        decreases entry.links@.len() - i,
    {
        if is_media_link(&entry.links[i]) {
            proof {
                lemma_first_media_link(entry.links@, i as int);
            }
            return Some(clone_link_ref(&entry.links[i]));
        }
        i = i + 1;
    }
    proof {
        lemma_first_media_link(entry.links@, i as int);
    }
    if let Some(src) = &entry.content_src {
        if is_media_link(src) {
            return Some(clone_link_ref(src));
        }
    }
    let mut j: usize = 0;
    while j < entry.media.len()
        invariant
            j <= entry.media@.len(),
            forall|k: int| 0 <= k < j ==> !usable_media(#[trigger] entry.media@[k]),
            first_media_link(entry.links@) is None,
            !(entry.content_src is Some && is_media_link_spec(entry.content_src->0)),
        decreases entry.media@.len() - j,
    {
        let m = &entry.media[j];
        if let Some(url) = &m.url {
            let usable = match &m.content_type {
                Some(t) => media_type_is_audio_or_video(t.as_str()),
                None => true,
            };
            if usable {
                proof {
                    lemma_first_usable_media(entry.media@, j as int);
                }
                return Some(
                    MediaRef { url: url.clone(), content_type: m.content_type.clone(), length: m.size },
                );
            }
        }
        j = j + 1;
    }
    proof {
        lemma_first_usable_media(entry.media@, j as int);
    }
    None
}

// ---------------------------------------------------------------------------
// Parsed feeds
// ---------------------------------------------------------------------------

#[derive(Debug, PartialEq, Eq)]
pub struct ParsedEpisode {
    pub episode_key: String,
    pub raw_title: String,
    pub normalized_title: String,
    pub raw_author: Option<String>,
    pub published_at: Option<String>,
    pub media_url: String,
    pub media_content_type: Option<String>,
    pub media_length_bytes: Option<i64>,
}

impl Clone for ParsedEpisode {
    fn clone(&self) -> (r: Self)
        ensures
            r == *self,
    {
        ParsedEpisode {
            episode_key: self.episode_key.clone(),
            raw_title: self.raw_title.clone(),
            normalized_title: self.normalized_title.clone(),
            raw_author: self.raw_author.clone(),
            published_at: self.published_at.clone(),
            media_url: self.media_url.clone(),
            media_content_type: self.media_content_type.clone(),
            media_length_bytes: self.media_length_bytes,
        }
    }
}

/// `ParsedEpisode` as a mathematical value.
pub struct ParsedEpisodeView {
    pub episode_key: Seq<char>,
    pub raw_title: Seq<char>,
    pub normalized_title: Seq<char>,
    pub raw_author: Option<Seq<char>>,
    pub published_at: Option<Seq<char>>,
    pub media_url: Seq<char>,
    pub media_content_type: Option<Seq<char>>,
    pub media_length_bytes: Option<i64>,
}

impl View for ParsedEpisode {
    type V = ParsedEpisodeView;

    open spec fn view(&self) -> ParsedEpisodeView {
        ParsedEpisodeView {
            episode_key: self.episode_key@,
            raw_title: self.raw_title@,
            normalized_title: self.normalized_title@,
            raw_author: self.raw_author.deep_view(),
            published_at: self.published_at.deep_view(),
            media_url: self.media_url@,
            media_content_type: self.media_content_type.deep_view(),
            media_length_bytes: self.media_length_bytes,
        }
    }
}

#[derive(Debug, PartialEq, Eq)]
pub struct ParsedFeed {
    pub raw_title: String,
    pub normalized_title: String,
    pub site_url: Option<String>,
    pub description: Option<String>,
    pub artwork_url: Option<String>,
    pub episodes: Vec<ParsedEpisode>,
}

/// `ParsedFeed` as a mathematical value.
pub struct ParsedFeedView {
    pub raw_title: Seq<char>,
    pub normalized_title: Seq<char>,
    pub site_url: Option<Seq<char>>,
    pub description: Option<Seq<char>>,
    pub artwork_url: Option<Seq<char>>,
    pub episodes: Seq<ParsedEpisodeView>,
}

pub open spec fn episodes_view(v: Seq<ParsedEpisode>) -> Seq<ParsedEpisodeView> {
    v.map_values(|e: ParsedEpisode| e@)
}

impl View for ParsedFeed {
    type V = ParsedFeedView;

    open spec fn view(&self) -> ParsedFeedView {
        ParsedFeedView {
            raw_title: self.raw_title@,
            normalized_title: self.normalized_title@,
            site_url: self.site_url.deep_view(),
            description: self.description.deep_view(),
            artwork_url: self.artwork_url.deep_view(),
            episodes: episodes_view(self.episodes@),
        }
    }
}

/// A byte length that fits an `i64`, or nothing.
pub open spec fn length_as_i64(l: Option<u64>) -> Option<i64> {
    match l {
        Some(n) => if n <= i64::MAX {
            Some(n as i64)
        } else {
            None
        },
        None => None,
    }
}

/// The episode an entry gives, if it has media: titled "Untitled Episode" without a
/// title, dated by its publication (else update) time, authored by its first author,
/// keyed by its id (or its media URL when the id is blank).
pub open spec fn parse_entry_spec(e: FeedEntry) -> Option<ParsedEpisodeView> {
    match find_media_spec(e) {
        Some(m) => {
            let raw_title = match e.title {
                Some(t) => t@,
                None => "Untitled Episode"@,
            };
            Some(
                ParsedEpisodeView {
                    episode_key: episode_key_of(Some(e.id@), m.url@),
                    raw_title: raw_title,
                    normalized_title: normalized_title(raw_title),
                    raw_author: if e.authors@.len() > 0 {
                        Some(e.authors@[0]@)
                    } else {
                        None
                    },
                    published_at: if e.published is Some {
                        e.published.deep_view()
                    } else {
                        e.updated.deep_view()
                    },
                    media_url: m.url@,
                    media_content_type: m.content_type.deep_view(),
                    media_length_bytes: length_as_i64(m.length),
                },
            )
        },
        None => None,
    }
}

/// An entry's episode is dated by the entry's publication time when it has one; its update
/// time stands in only when it has none.
pub proof fn lemma_entry_dated_by_publication(e: FeedEntry)
    ensures
        parse_entry_spec(e) matches Some(p) ==> {
            &&& (e.published matches Some(t) ==> p.published_at == Some(t@))
            &&& (e.published is None ==> p.published_at == e.updated.deep_view())
            &&& (e.title matches Some(t) ==> p.raw_title == t@)
            &&& (e.title is None ==> p.raw_title == "Untitled Episode"@)
            &&& (e.authors@.len() > 0 ==> p.raw_author == Some(e.authors@[0]@))
            &&& (e.authors@.len() == 0 ==> p.raw_author is None)
        },
{
}

pub fn parse_entry(entry: &FeedEntry) -> (r: Option<ParsedEpisode>)
    ensures
        match r {
            Some(p) => parse_entry_spec(*entry) == Some(p@),
            None => parse_entry_spec(*entry) is None,
        },
{
    let media = find_media(entry)?;
    let raw_title = match &entry.title {
        Some(t) => t.clone(),
        None => owned("Untitled Episode"),
    };
    let published_at = match &entry.published {
        Some(p) => Some(p.clone()),
        None => entry.updated.clone(),
    };
    let raw_author = if entry.authors.len() > 0 {
        Some(entry.authors[0].clone())
    } else {
        None
    };
    let media_length_bytes = match media.length {
        Some(n) => if n <= 9223372036854775807u64 {
            Some(n as i64)
        } else {
            None
        },
        None => None,
    };
    let key = episode_key(Some(entry.id.as_str()), media.url.as_str());
    let normalized = normalize_title(raw_title.as_str());
    Some(
        ParsedEpisode {
            episode_key: key,
            raw_title,
            normalized_title: normalized,
            raw_author,
            published_at,
            media_url: media.url,
            media_content_type: media.content_type,
            media_length_bytes,
        },
    )
}

/// Whether a link counts as the site link: its relation is "alternate", or it has none.
pub open spec fn is_alternate(l: FeedLink) -> bool {
    l.rel is None || l.rel->0@ == "alternate"@
}

pub open spec fn first_alternate(links: Seq<FeedLink>) -> Option<FeedLink>
    decreases links.len(),
{
    if links.len() == 0 {
        None
    } else if is_alternate(links[0]) {
        Some(links[0])
    } else {
        first_alternate(links.drop_first())
    }
}

/// The site of a feed: its first alternate link, else its first link.
pub open spec fn site_link_spec(links: Seq<FeedLink>) -> Option<Seq<char>> {
    if first_alternate(links) is Some {
        Some(first_alternate(links)->0.href@)
    } else if links.len() > 0 {
        Some(links[0].href@)
    } else {
        None
    }
}

proof fn lemma_first_alternate(links: Seq<FeedLink>, i: int)
    requires
        0 <= i <= links.len(),
        forall|k: int| 0 <= k < i ==> !is_alternate(#[trigger] links[k]),
    ensures
        first_alternate(links) == first_alternate(links.skip(i)),
    decreases i,
{
    if i > 0 {
        lemma_first_alternate(links.drop_first(), i - 1);
        assert(links.drop_first().skip(i - 1) == links.skip(i));
    } else {
        assert(links.skip(0) == links);
    }
}

pub fn first_alternate_link(links: &Vec<FeedLink>) -> (r: Option<String>)
    ensures
        r.deep_view() == site_link_spec(links@),
{
    let mut i: usize = 0;
    while i < links.len()
        invariant
            i <= links@.len(),
            forall|k: int| 0 <= k < i ==> !is_alternate(#[trigger] links@[k]),
        decreases links@.len() - i,
    {
        let alternate = match &links[i].rel {
            Some(rel) => same_text(rel.as_str(), "alternate"),
            None => true,
        };
        if alternate {
            proof {
                lemma_first_alternate(links@, i as int);
            }
            return Some(links[i].href.clone());
        }
        i = i + 1;
    }
    proof {
        lemma_first_alternate(links@, i as int);
    }
    if links.len() > 0 {
        Some(links[0].href.clone())
    } else {
        None
    }
}

/// The feed a document gives: titled "Untitled Podcast" without a title, its episodes
/// those of its entries that have media, in document order.
pub open spec fn parsed_feed_spec(doc: FeedDocument) -> ParsedFeedView {
    let raw_title = match doc.title {
        Some(t) => t@,
        None => "Untitled Podcast"@,
    };
    ParsedFeedView {
        raw_title: raw_title,
        normalized_title: normalized_title(raw_title),
        site_url: site_link_spec(doc.links@),
        description: doc.description.deep_view(),
        artwork_url: if doc.icon is Some {
            doc.icon.deep_view()
        } else {
            doc.logo.deep_view()
        },
        episodes: doc.entries@.filter_map(|e: FeedEntry| parse_entry_spec(e)),
    }
}

/// The feed a parsed document gives.
pub fn parse_feed_document(doc: &FeedDocument) -> (r: ParsedFeed)
    ensures
        r@ == parsed_feed_spec(*doc),
{
    let raw_title = match &doc.title {
        Some(t) => t.clone(),
        None => owned("Untitled Podcast"),
    };
    let mut episodes: Vec<ParsedEpisode> = Vec::new();
    let mut i: usize = 0;
    while i < doc.entries.len()
        invariant
            i <= doc.entries@.len(),
            episodes_view(episodes@) == doc.entries@.take(i as int).filter_map(
                |e: FeedEntry| parse_entry_spec(e),
            ),
        decreases doc.entries@.len() - i,
    {
        proof {
            doc.entries@.lemma_filter_map_take_succ(|e: FeedEntry| parse_entry_spec(e), i as int);
        }
        let ghost before = episodes@;
        match parse_entry(&doc.entries[i]) {
            Some(p) => {
                episodes.push(p);
                assert(episodes_view(episodes@) == episodes_view(before).push(p@));
            },
            None => {},
        }
        i = i + 1;
    }
    assert(doc.entries@.take(doc.entries@.len() as int) == doc.entries@);
    let normalized = normalize_title(raw_title.as_str());
    let artwork_url = match &doc.icon {
        Some(i) => Some(i.clone()),
        None => doc.logo.clone(),
    };
    ParsedFeed {
        raw_title,
        normalized_title: normalized,
        site_url: first_alternate_link(&doc.links),
        description: doc.description.clone(),
        artwork_url,
        episodes,
    }
}

/// Parses the bytes of an RSS, Atom or JSON feed. A parser failure is a feed parse error
/// carrying the parser's text; otherwise the feed is what the document the parser read
/// from these bytes gives.
pub fn parse_feed(body: &[u8]) -> (r: Result<ParsedFeed>)
    requires
        parser_safe_input(body@),
    ensures
        r is Err <==> feed_rejects(body@),
        r is Err ==> r matches Err(PodcastError::FeedParse(_)),
        r matches Ok(p) ==> exists|doc: FeedDocument|
            #![trigger feed_reads_as(body@, doc)]
            feed_reads_as(body@, doc) && parsed_feed_spec(doc) == p@,
{
    match read_feed_document(body) {
        Ok(doc) => {
            let p = parse_feed_document(&doc);
            Ok(p)
        },
        Err(message) => Err(PodcastError::FeedParse(message)),
    }
}

// ---------------------------------------------------------------------------
// Newest first
// ---------------------------------------------------------------------------

/// `a` comes strictly before `b` among optional texts: nothing first, then by text.
pub open spec fn opt_text_lt(a: Option<Seq<char>>, b: Option<Seq<char>>) -> bool {
    match (a, b) {
        (None, Some(_)) => true,
        (Some(x), Some(y)) => text_lt(x, y),
        _ => false,
    }
}

/// `a` is listed strictly before `b`: it was published later, or at the same time with a
/// title that sorts first.
pub open spec fn episode_before(a: ParsedEpisodeView, b: ParsedEpisodeView) -> bool {
    opt_text_lt(b.published_at, a.published_at) || (a.published_at == b.published_at && text_lt(
        a.raw_title,
        b.raw_title,
    ))
}

/// No episode is listed after one it should precede.
pub open spec fn newest_first(s: Seq<ParsedEpisodeView>) -> bool {
    forall|i: int, j: int| 0 <= i < j < s.len() ==> !episode_before(#[trigger] s[j], #[trigger] s[i])
}

pub proof fn lemma_episode_before_asymmetric(a: ParsedEpisodeView, b: ParsedEpisodeView)
    ensures
        episode_before(a, b) ==> !episode_before(b, a),
{
    if a.published_at is Some && b.published_at is Some {
        lemma_text_lt_asymmetric(a.published_at->0, b.published_at->0);
        lemma_text_lt_irreflexive(a.published_at->0);
    }
    lemma_text_lt_asymmetric(a.raw_title, b.raw_title);
}

/// Not being listed after each other is transitive.
pub proof fn lemma_episode_not_before_transitive(
    a: ParsedEpisodeView,
    b: ParsedEpisodeView,
    c: ParsedEpisodeView,
)
    requires
        !episode_before(b, a),
        !episode_before(c, b),
    ensures
        !episode_before(c, a),
{
    let pa = a.published_at;
    let pb = b.published_at;
    let pc = c.published_at;
    if pa is Some && pb is Some {
        lemma_text_lt_total(pa->0, pb->0);
    }
    if pb is Some && pc is Some {
        lemma_text_lt_total(pb->0, pc->0);
    }
    if pa is Some && pc is Some {
        lemma_text_lt_total(pa->0, pc->0);
    }
    lemma_text_lt_total(a.raw_title, b.raw_title);
    lemma_text_lt_total(b.raw_title, c.raw_title);
    if episode_before(c, a) {
        if pa is Some && pb is Some && pc is Some {
            if text_lt(pa->0, pc->0) {
                if text_lt(pb->0, pa->0) {
                    lemma_text_lt_transitive(pb->0, pa->0, pc->0);
                }
            }
            if text_lt(pb->0, pc->0) && text_lt(pa->0, pb->0) {
                lemma_text_lt_transitive(pa->0, pb->0, pc->0);
            }
        }
        if text_lt(c.raw_title, a.raw_title) && text_lt(b.raw_title, c.raw_title) {
            lemma_text_lt_transitive(b.raw_title, c.raw_title, a.raw_title);
        }
        if text_lt(c.raw_title, a.raw_title) && text_lt(a.raw_title, b.raw_title) {
            lemma_text_lt_transitive(c.raw_title, a.raw_title, b.raw_title);
        }
    }
}

fn opt_text_order(a: &Option<String>, b: &Option<String>) -> (r: Order)
    ensures
        r == Order::Less <==> opt_text_lt(a.deep_view(), b.deep_view()),
        r == Order::Equal <==> a.deep_view() == b.deep_view(),
        r == Order::Greater <==> opt_text_lt(b.deep_view(), a.deep_view()),
{
    match (a, b) {
        (None, None) => Order::Equal,
        (None, Some(_)) => Order::Less,
        (Some(_), None) => Order::Greater,
        (Some(x), Some(y)) => {
            let o = compare_text(x.as_str(), y.as_str());
            proof {
                lemma_text_lt_asymmetric(x@, y@);
                lemma_text_lt_irreflexive(x@);
                lemma_text_lt_total(x@, y@);
            }
            o
        },
    }
}

fn episode_precedes(a: &ParsedEpisode, b: &ParsedEpisode) -> (r: bool)
    ensures
        r == episode_before(a@, b@),
{
    match opt_text_order(&a.published_at, &b.published_at) {
        Order::Greater => true,
        Order::Less => false,
        Order::Equal => {
            let o = compare_text(a.raw_title.as_str(), b.raw_title.as_str());
            o == Order::Less
        },
    }
}

/// The order of `sort_newest_first` on episodes.
pub open spec fn newer_first() -> spec_fn(ParsedEpisode, ParsedEpisode) -> bool {
    |a: ParsedEpisode, b: ParsedEpisode| episode_before(a@, b@)
}

proof fn lemma_newer_first_strict_weak()
    ensures
        strict_weak(newer_first()),
{
    assert forall|a: ParsedEpisode, b: ParsedEpisode| #[trigger] newer_first()(a, b) implies !newer_first()(b, a) by {
        lemma_episode_before_asymmetric(a@, b@);
    }
    assert forall|a: ParsedEpisode, b: ParsedEpisode, c: ParsedEpisode|
        #![trigger newer_first()(b, a), newer_first()(c, b)]
        !newer_first()(b, a) && !newer_first()(c, b) implies !newer_first()(c, a) by {
        lemma_episode_not_before_transitive(a@, b@, c@);
    }
}

/// Orders episodes newest first (later publication first; undated last; equal dates by
/// title), keeping the order of equal ones.
pub fn sort_newest_first(episodes: &mut Vec<ParsedEpisode>)
    ensures
        final(episodes)@ == stable_sort(old(episodes)@, newer_first()),
        newest_first(episodes_view(final(episodes)@)),
        final(episodes)@.to_multiset() == old(episodes)@.to_multiset(),
{
    let ghost unsorted = episodes@;
    let n = episodes.len();
    let mut i: usize = 0;
    assert(episodes@.take(0) =~= stable_sort(unsorted.take(0), newer_first()));
    assert(episodes@.skip(0) =~= unsorted.skip(0));
    while i < n
        invariant
            i <= n == episodes@.len() == unsorted.len(),
            episodes@.take(i as int) == stable_sort(unsorted.take(i as int), newer_first()),
            episodes@.skip(i as int) == unsorted.skip(i as int),
        decreases n - i,
    {
        let ghost p = episodes@.take(i as int);
        let ghost x = unsorted[i as int];
        proof {
            lemma_stable_sort_step(unsorted, i as int, newer_first());
            lemma_insert_multiset(stable_sort(unsorted.take(i as int), newer_first()), x, newer_first());
            assert(p.take(i as int) =~= p);
            assert(p.skip(i as int) =~= Seq::<ParsedEpisode>::empty());
            assert(unsorted.skip(i as int) =~= seq![x] + unsorted.skip(i + 1));
            assert(episodes@ =~= episodes@.take(i as int) + episodes@.skip(i as int));
            assert(episodes@ =~= p.take(i as int) + seq![x] + p.skip(i as int) + unsorted.skip(i + 1));
        }
        let mut j: usize = i;
        while j > 0 && episode_precedes(&episodes[j], &episodes[j - 1])
            invariant
                0 <= j <= i < n == episodes@.len() == unsorted.len(),
                p.len() == i,
                x == unsorted[i as int],
                episodes@ == p.take(j as int) + seq![x] + p.skip(j as int) + unsorted.skip(i + 1),
                forall|m: int| j <= m < i ==> newer_first()(x, #[trigger] p[m]),
            decreases j,
        {
            assert(episodes@[j as int] == x);
            assert(episodes@[j - 1] == p[j - 1]);
            let y = episodes.remove(j);
            episodes.insert(j - 1, y);
            assert(episodes@ =~= p.take(j - 1) + seq![x] + p.skip(j - 1) + unsorted.skip(i + 1));
            j = j - 1;
        }
        proof {
            if j > 0 {
                assert(episodes@[j as int] == x);
                assert(episodes@[j - 1] == p[j - 1]);
                assert(p.take(j as int).last() == p[j - 1]);
            }
            lemma_insert_before_tail(p, x, newer_first(), j as int);
            assert(stable_insert(p.take(j as int), x, newer_first()) == p.take(j as int).push(x));
            assert(episodes@.take(i + 1) =~= p.take(j as int).push(x) + p.skip(j as int));
            assert(episodes@.skip(i + 1) =~= unsorted.skip(i + 1));
        }
        i = i + 1;
    }
    proof {
        assert(episodes@.take(n as int) =~= episodes@);
        assert(unsorted.take(n as int) =~= unsorted);
        lemma_newer_first_strict_weak();
        lemma_stable_sort(unsorted, newer_first());
        let r = episodes@;
        assert forall|a: int, b: int| 0 <= a < b < episodes_view(r).len() implies !episode_before(
            #[trigger] episodes_view(r)[b],
            #[trigger] episodes_view(r)[a],
        ) by {
            assert(!newer_first()(r[b], r[a]));
        }
    }
}

} // verus!

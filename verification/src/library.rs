use vstd::prelude::*;

use crate::feeds::{ParsedEpisode, ParsedFeed};
use crate::model::{DeleteDownloadSummary, EpisodePreview, EpisodeStatus, FeedPreview, PodcastError, Result};
use crate::paths::{path_starts_with, path_within};
use crate::text::{concat, owned};

verus! {

// ---------------------------------------------------------------------------
// Subscribing
// ---------------------------------------------------------------------------

/// A feed URL that is already subscribed is refused as a duplicate.
pub fn check_not_subscribed(feed_url: &str, already_subscribed: bool) -> (r: Result<()>)
    ensures
        r is Ok <==> !already_subscribed,
        already_subscribed ==> (r matches Err(PodcastError::DuplicateFeed(u)) && u@ == feed_url@),
{
    if already_subscribed {
        Err(PodcastError::DuplicateFeed(owned(feed_url)))
    } else {
        Ok(())
    }
}

/// A feed without a single downloadable episode is refused.
pub fn check_has_episodes(feed_url: &str, parsed: &ParsedFeed) -> (r: Result<()>)
    ensures
        r is Ok <==> parsed.episodes@.len() > 0,
        parsed.episodes@.len() == 0 ==> (r matches Err(PodcastError::NoDownloadableEpisodes(u))
            && u@ == feed_url@),
{
    if parsed.episodes.len() == 0 {
        Err(PodcastError::NoDownloadableEpisodes(owned(feed_url)))
    } else {
        Ok(())
    }
}

/// A record looked up by `id`, or `NotFound(id)` when there is none.
pub fn require_found<T>(found: Option<T>, id: &str) -> (r: Result<T>)
    ensures
        match found {
            Some(v) => r == Ok::<T, PodcastError>(v),
            None => r matches Err(PodcastError::NotFound(m)) && m@ == id@,
        },
{
    match found {
        Some(v) => Ok(v),
        None => Err(PodcastError::NotFound(owned(id))),
    }
}

// ---------------------------------------------------------------------------
// Previews
// ---------------------------------------------------------------------------

/// The preview of a parsed episode carries its fields unchanged.
pub open spec fn previews(p: EpisodePreview, e: ParsedEpisode) -> bool {
    &&& p.episode_key == e.episode_key
    &&& p.raw_title == e.raw_title
    &&& p.normalized_title == e.normalized_title
    &&& p.raw_author == e.raw_author
    &&& p.published_at == e.published_at
    &&& p.media_url == e.media_url
    &&& p.media_content_type == e.media_content_type
    &&& p.media_length_bytes == e.media_length_bytes
}

pub fn episode_preview(e: ParsedEpisode) -> (r: EpisodePreview)
    ensures
        previews(r, e),
{
    EpisodePreview {
        episode_key: e.episode_key,
        raw_title: e.raw_title,
        normalized_title: e.normalized_title,
        raw_author: e.raw_author,
        published_at: e.published_at,
        media_url: e.media_url,
        media_content_type: e.media_content_type,
        media_length_bytes: e.media_length_bytes,
    }
}

/// What a feed at `feed_url` would give, without subscribing to it: its details and one
/// preview per episode, in the parsed order.
pub fn feed_preview(feed_url: &str, parsed: ParsedFeed) -> (r: FeedPreview)
    ensures
        r.feed_url@ == feed_url@,
        r.raw_title == parsed.raw_title,
        r.normalized_title == parsed.normalized_title,
        r.site_url == parsed.site_url,
        r.description == parsed.description,
        r.artwork_url == parsed.artwork_url,
        r.episodes@.len() == parsed.episodes@.len(),
        forall|i: int| 0 <= i < r.episodes@.len() ==> previews(#[trigger] r.episodes@[i], parsed.episodes@[i]),
{
    let mut episodes: Vec<EpisodePreview> = Vec::new();
    for e in it: parsed.episodes
        invariant
            it.seq() == parsed.episodes@,
            episodes@.len() == it.index(),
            forall|k: int| 0 <= k < it.index() ==> previews(#[trigger] episodes@[k], parsed.episodes@[k]),
    {
        episodes.push(episode_preview(e));
    }
    FeedPreview {
        feed_url: owned(feed_url),
        raw_title: parsed.raw_title,
        normalized_title: parsed.normalized_title,
        site_url: parsed.site_url,
        description: parsed.description,
        artwork_url: parsed.artwork_url,
        episodes,
    }
}

// ---------------------------------------------------------------------------
// Deleting downloads
// ---------------------------------------------------------------------------

/// Only a downloaded episode has a download to delete.
pub fn wants_download_deleted(status: EpisodeStatus) -> (r: bool)
    ensures
        r == (status == EpisodeStatus::Downloaded),
{
    match status {
        EpisodeStatus::Downloaded => true,
        _ => false,
    }
}

/// The outcome of deleting one episode's download: one episode asked for; when it was
/// downloaded it is marked deleted, and its file counts when one was removed.
pub fn delete_download_summary(status: EpisodeStatus, file_removed: bool) -> (r: DeleteDownloadSummary)
    ensures
        r.requested == 1,
        r.deleted == (if status == EpisodeStatus::Downloaded { 1usize } else { 0usize }),
        r.files_deleted == (if status == EpisodeStatus::Downloaded && file_removed { 1usize } else { 0usize }),
{
    if wants_download_deleted(status) {
        DeleteDownloadSummary { requested: 1, deleted: 1, files_deleted: if file_removed { 1 } else { 0 } }
    } else {
        DeleteDownloadSummary { requested: 1, deleted: 0, files_deleted: 0 }
    }
}

/// A file is deleted only when it lies inside the download directory (both paths
/// already resolved to their real locations); otherwise the deletion is refused with
/// "refusing to delete file outside download directory: {file}".
pub fn check_deletable(canonical_file: &str, canonical_download_dir: &str) -> (r: Result<()>)
    ensures
        r is Ok <==> path_within(canonical_file@, canonical_download_dir@),
        !path_within(canonical_file@, canonical_download_dir@) ==> (r matches Err(
            PodcastError::InvalidConfig(m),
        ) && m@ == "refusing to delete file outside download directory: "@ + canonical_file@),
{
    if path_starts_with(canonical_file, canonical_download_dir) {
        Ok(())
    } else {
        Err(
            PodcastError::InvalidConfig(
                concat("refusing to delete file outside download directory: ", canonical_file),
            ),
        )
    }
}

} // verus!

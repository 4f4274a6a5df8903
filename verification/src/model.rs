use vstd::prelude::*;

use crate::text::{concat, owned, same_text};

verus! {

// ---------------------------------------------------------------------------
// Errors
// ---------------------------------------------------------------------------

/// What can go wrong in the library. Failures of the database, the network, the file
/// system and URL parsing carry the text of the underlying error.
#[derive(Debug, Clone)]
pub enum PodcastError {
    Database(String),
    Http(String),
    FeedParse(String),
    Io(String),
    Url(String),
    DuplicateFeed(String),
    NoDownloadableEpisodes(String),
    NotFound(String),
    InvalidConfig(String),
    Mp3EncoderUnavailable,
    Mp3ConversionFailed(String),
}

pub type Result<T> = std::result::Result<T, PodcastError>;

/// The machine-readable kind of an error, as the frontends receive it.
pub open spec fn error_kind(e: PodcastError) -> Seq<char> {
    match e {
        PodcastError::Database(_) => "database"@,
        PodcastError::Http(_) => "http"@,
        PodcastError::FeedParse(_) => "feed_parse"@,
        PodcastError::Io(_) => "io"@,
        PodcastError::Url(_) => "url"@,
        PodcastError::DuplicateFeed(_) => "duplicate_feed"@,
        PodcastError::NoDownloadableEpisodes(_) => "no_downloadable_episodes"@,
        PodcastError::NotFound(_) => "not_found"@,
        PodcastError::InvalidConfig(_) => "invalid_config"@,
        PodcastError::Mp3EncoderUnavailable => "mp3_encoder_unavailable"@,
        PodcastError::Mp3ConversionFailed(_) => "mp3_conversion_failed"@,
    }
}

/// The human-readable text of an error.
pub open spec fn error_message(e: PodcastError) -> Seq<char> {
    match e {
        PodcastError::Database(m) => "database error: "@ + m@,
        PodcastError::Http(m) => "http error: "@ + m@,
        PodcastError::FeedParse(m) => "feed parse error: "@ + m@,
        PodcastError::Io(m) => "io error: "@ + m@,
        PodcastError::Url(m) => "url parse error: "@ + m@,
        PodcastError::DuplicateFeed(m) => "duplicate feed url: "@ + m@,
        PodcastError::NoDownloadableEpisodes(m) => "feed has no downloadable episodes: "@ + m@,
        PodcastError::NotFound(m) => "not found: "@ + m@,
        PodcastError::InvalidConfig(m) => "invalid configuration: "@ + m@,
        PodcastError::Mp3EncoderUnavailable => "mp3 conversion is required but no encoder is configured"@,
        PodcastError::Mp3ConversionFailed(m) => "mp3 conversion failed: "@ + m@,
    }
}

impl PodcastError {
    pub fn kind(&self) -> (r: &'static str)
        ensures
            r@ == error_kind(*self),
    {
        match self {
            PodcastError::Database(_) => "database",
            PodcastError::Http(_) => "http",
            PodcastError::FeedParse(_) => "feed_parse",
            PodcastError::Io(_) => "io",
            PodcastError::Url(_) => "url",
            PodcastError::DuplicateFeed(_) => "duplicate_feed",
            PodcastError::NoDownloadableEpisodes(_) => "no_downloadable_episodes",
            PodcastError::NotFound(_) => "not_found",
            PodcastError::InvalidConfig(_) => "invalid_config",
            PodcastError::Mp3EncoderUnavailable => "mp3_encoder_unavailable",
            PodcastError::Mp3ConversionFailed(_) => "mp3_conversion_failed",
        }
    }

    /// The error's text (what `to_string` gives).
    pub fn message(&self) -> (r: String)
        ensures
            r@ == error_message(*self),
    {
        match self {
            PodcastError::Database(m) => concat("database error: ", m.as_str()),
            PodcastError::Http(m) => concat("http error: ", m.as_str()),
            PodcastError::FeedParse(m) => concat("feed parse error: ", m.as_str()),
            PodcastError::Io(m) => concat("io error: ", m.as_str()),
            PodcastError::Url(m) => concat("url parse error: ", m.as_str()),
            PodcastError::DuplicateFeed(m) => concat("duplicate feed url: ", m.as_str()),
            PodcastError::NoDownloadableEpisodes(m) => concat(
                "feed has no downloadable episodes: ",
                m.as_str(),
            ),
            PodcastError::NotFound(m) => concat("not found: ", m.as_str()),
            PodcastError::InvalidConfig(m) => concat("invalid configuration: ", m.as_str()),
            PodcastError::Mp3EncoderUnavailable => owned(
                "mp3 conversion is required but no encoder is configured",
            ),
            PodcastError::Mp3ConversionFailed(m) => concat("mp3 conversion failed: ", m.as_str()),
        }
    }
}

/// An error as the frontends receive it.
#[derive(Debug, Clone, PartialEq, Eq)]
pub struct AppErrorDto {
    pub kind: String,
    pub message: String,
}

impl AppErrorDto {
    /// The frontend form of an error: its kind and its text.
    pub fn from_error(error: &PodcastError) -> (r: AppErrorDto)
        ensures
            r.kind@ == error_kind(*error),
            r.message@ == error_message(*error),
    {
        AppErrorDto { kind: owned(error.kind()), message: error.message() }
    }
}

// ---------------------------------------------------------------------------
// Configuration
// ---------------------------------------------------------------------------

/// Runtime configuration of the library. Paths are kept as text.
#[derive(Debug, Clone)]
pub struct CoreConfig {
    pub database_path: String,
    pub download_dir: String,
    pub log_file_path: Option<String>,
    pub country: String,
    pub http_timeout_seconds: u64,
    pub user_agent: String,
    pub default_retention_limit: u32,
    pub max_concurrent_feed_fetches: usize,
    pub max_concurrent_downloads: usize,
    pub apple_search_base_url: String,
    pub ensure_mp3: bool,
    pub mp3_encoder_path: Option<String>,
}

/// A configuration is usable when both concurrency limits are positive.
pub open spec fn config_is_valid(c: CoreConfig) -> bool {
    c.max_concurrent_feed_fetches > 0 && c.max_concurrent_downloads > 0
}

impl CoreConfig {
    /// The defaults, with the given database and download locations.
    pub fn new(database_path: String, download_dir: String) -> (r: CoreConfig)
        ensures
            r.database_path == database_path,
            r.download_dir == download_dir,
            r.log_file_path is None,
            r.country@ == "US"@,
            r.http_timeout_seconds == 30,
            r.user_agent@ == "podcast-downloader/0.1"@,
            r.default_retention_limit == 4,
            r.max_concurrent_feed_fetches == 4,
            r.max_concurrent_downloads == 2,
            r.apple_search_base_url@ == "https://itunes.apple.com/search"@,
            r.ensure_mp3,
            r.mp3_encoder_path is None,
            config_is_valid(r),
    {
        CoreConfig {
            database_path,
            download_dir,
            log_file_path: None,
            country: owned("US"),
            http_timeout_seconds: 30,
            user_agent: owned("podcast-downloader/0.1"),
            default_retention_limit: 4,
            max_concurrent_feed_fetches: 4,
            max_concurrent_downloads: 2,
            apple_search_base_url: owned("https://itunes.apple.com/search"),
            ensure_mp3: true,
            mp3_encoder_path: None,
        }
    }

    /// Rejects a configuration with a zero concurrency limit; the feed limit is checked first.
    pub fn validate(&self) -> (r: Result<()>)
        ensures
            r is Ok <==> config_is_valid(*self),
            self.max_concurrent_feed_fetches == 0 ==> (r matches Err(
                PodcastError::InvalidConfig(m),
            ) && m@ == "max_concurrent_feed_fetches must be greater than zero"@),
            self.max_concurrent_feed_fetches > 0 && self.max_concurrent_downloads == 0 ==> (r matches Err(
                PodcastError::InvalidConfig(m),
            ) && m@ == "max_concurrent_downloads must be greater than zero"@),
    {
        if self.max_concurrent_feed_fetches == 0 {
            return Err(
                PodcastError::InvalidConfig(
                    owned("max_concurrent_feed_fetches must be greater than zero"),
                ),
            );
        }
        if self.max_concurrent_downloads == 0 {
            return Err(
                PodcastError::InvalidConfig(
                    owned("max_concurrent_downloads must be greater than zero"),
                ),
            );
        }
        Ok(())
    }
}

// ---------------------------------------------------------------------------
// Records exchanged with the frontends
// ---------------------------------------------------------------------------

/// What the configured MP3 encoder reported when asked for its version.
#[derive(Debug, Clone, PartialEq, Eq)]
pub enum AudioEncoderStatus {
    Available { path: String, version: String },
    Missing { path: String },
    Error { path: String, error: String },
}

#[derive(Debug, Clone, PartialEq, Eq)]
pub struct PodcastSearchResult {
    pub title: String,
    pub author: Option<String>,
    pub feed_url: Option<String>,
    pub artwork_url: Option<String>,
    pub apple_url: Option<String>,
}

#[derive(Debug, Clone, PartialEq, Eq)]
pub struct FeedPreview {
    pub feed_url: String,
    pub raw_title: String,
    pub normalized_title: String,
    pub site_url: Option<String>,
    pub description: Option<String>,
    pub artwork_url: Option<String>,
    pub episodes: Vec<EpisodePreview>,
}

#[derive(Debug, Clone, PartialEq, Eq)]
pub struct EpisodePreview {
    pub episode_key: String,
    pub raw_title: String,
    pub normalized_title: String,
    pub raw_author: Option<String>,
    pub published_at: Option<String>,
    pub media_url: String,
    pub media_content_type: Option<String>,
    pub media_length_bytes: Option<i64>,
}

#[derive(Debug, PartialEq, Eq)]
pub struct FeedSubscription {
    pub id: String,
    pub feed_url: String,
    pub raw_title: String,
    pub normalized_title: String,
    pub site_url: Option<String>,
    pub description: Option<String>,
    pub artwork_url: Option<String>,
    pub retention_limit: Option<u32>,
    pub created_at: String,
    pub updated_at: String,
    pub last_checked_at: Option<String>,
}

impl Clone for FeedSubscription {
    fn clone(&self) -> (r: Self)
        ensures
            r == *self,
    {
        FeedSubscription {
            id: self.id.clone(),
            feed_url: self.feed_url.clone(),
            raw_title: self.raw_title.clone(),
            normalized_title: self.normalized_title.clone(),
            site_url: self.site_url.clone(),
            description: self.description.clone(),
            artwork_url: self.artwork_url.clone(),
            retention_limit: self.retention_limit,
            created_at: self.created_at.clone(),
            updated_at: self.updated_at.clone(),
            last_checked_at: self.last_checked_at.clone(),
        }
    }
}

#[derive(Debug, PartialEq, Eq)]
pub struct EpisodeRecord {
    pub id: String,
    pub feed_id: String,
    pub episode_key: String,
    pub raw_title: String,
    pub normalized_title: String,
    pub raw_author: Option<String>,
    pub published_at: Option<String>,
    pub media_url: String,
    pub media_content_type: Option<String>,
    pub media_length_bytes: Option<i64>,
    pub status: EpisodeStatus,
    pub file_path: Option<String>,
    pub first_seen_at: String,
    pub downloaded_at: Option<String>,
    pub deleted_at: Option<String>,
    pub last_error: Option<String>,
}

impl Clone for EpisodeRecord {
    fn clone(&self) -> (r: Self)
        ensures
            r == *self,
    {
        EpisodeRecord {
            id: self.id.clone(),
            feed_id: self.feed_id.clone(),
            episode_key: self.episode_key.clone(),
            raw_title: self.raw_title.clone(),
            normalized_title: self.normalized_title.clone(),
            raw_author: self.raw_author.clone(),
            published_at: self.published_at.clone(),
            media_url: self.media_url.clone(),
            media_content_type: self.media_content_type.clone(),
            media_length_bytes: self.media_length_bytes,
            status: self.status,
            file_path: self.file_path.clone(),
            first_seen_at: self.first_seen_at.clone(),
            downloaded_at: self.downloaded_at.clone(),
            deleted_at: self.deleted_at.clone(),
            last_error: self.last_error.clone(),
        }
    }
}

// ---------------------------------------------------------------------------
// Episode status
// ---------------------------------------------------------------------------

/// Where an episode stands in the library.
#[derive(Debug, Clone, Copy, PartialEq, Eq, Structural)]
pub enum EpisodeStatus {
    Pending,
    Downloaded,
    SkippedInitial,
    Failed,
    Deleted,
}

/// The text under which a status is stored.
pub open spec fn status_text(s: EpisodeStatus) -> Seq<char> {
    match s {
        EpisodeStatus::Pending => "pending"@,
        EpisodeStatus::Downloaded => "downloaded"@,
        EpisodeStatus::SkippedInitial => "skipped_initial"@,
        EpisodeStatus::Failed => "failed"@,
        EpisodeStatus::Deleted => "deleted"@,
    }
}

/// The status a stored text stands for; unknown text reads as pending.
pub open spec fn status_from_text(t: Seq<char>) -> EpisodeStatus {
    if t == "downloaded"@ {
        EpisodeStatus::Downloaded
    } else if t == "skipped_initial"@ {
        EpisodeStatus::SkippedInitial
    } else if t == "failed"@ {
        EpisodeStatus::Failed
    } else if t == "deleted"@ {
        EpisodeStatus::Deleted
    } else {
        EpisodeStatus::Pending
    }
}

impl EpisodeStatus {
    pub fn as_str(self) -> (r: &'static str)
        ensures
            r@ == status_text(self),
    {
        match self {
            EpisodeStatus::Pending => "pending",
            EpisodeStatus::Downloaded => "downloaded",
            EpisodeStatus::SkippedInitial => "skipped_initial",
            EpisodeStatus::Failed => "failed",
            EpisodeStatus::Deleted => "deleted",
        }
    }

    pub fn from_db(value: &str) -> (r: EpisodeStatus)
        ensures
            r == status_from_text(value@),
    {
        if same_text(value, "downloaded") {
            EpisodeStatus::Downloaded
        } else if same_text(value, "skipped_initial") {
            EpisodeStatus::SkippedInitial
        } else if same_text(value, "failed") {
            EpisodeStatus::Failed
        } else if same_text(value, "deleted") {
            EpisodeStatus::Deleted
        } else {
            EpisodeStatus::Pending
        }
    }
}

/// Reading back the stored text of a status gives the same status.
pub proof fn lemma_status_round_trip(s: EpisodeStatus)
    ensures
        status_from_text(status_text(s)) == s,
{
    reveal_strlit("pending");
    reveal_strlit("downloaded");
    reveal_strlit("skipped_initial");
    reveal_strlit("failed");
    reveal_strlit("deleted");
    match s {
        EpisodeStatus::Pending => {
            assert("pending"@[0] != "downloaded"@[0]);
            assert("pending"@[0] != "skipped_initial"@[0]);
            assert("pending"@[0] != "failed"@[0]);
            assert("pending"@[0] != "deleted"@[0]);
        },
        EpisodeStatus::SkippedInitial => {
            assert("skipped_initial"@[0] != "downloaded"@[0]);
        },
        EpisodeStatus::Failed => {
            assert("failed"@[0] != "downloaded"@[0]);
            assert("failed"@[0] != "skipped_initial"@[0]);
        },
        EpisodeStatus::Deleted => {
            assert("deleted"@[1] != "downloaded"@[1]);
            assert("deleted"@[0] != "skipped_initial"@[0]);
            assert("deleted"@[0] != "failed"@[0]);
        },
        _ => {},
    }
}

// ---------------------------------------------------------------------------
// Summaries
// ---------------------------------------------------------------------------

#[derive(Debug, PartialEq, Eq)]
pub struct FeedCheckSummary {
    pub feed_id: String,
    pub feed_title: String,
    pub discovered: usize,
    pub queued: usize,
    pub downloaded: usize,
    pub skipped_initial: usize,
    pub failed: usize,
    pub deleted_by_retention: usize,
    pub errors: Vec<String>,
}

impl Clone for FeedCheckSummary {
    fn clone(&self) -> (r: Self)
        ensures
            r.feed_id == self.feed_id,
            r.feed_title == self.feed_title,
            r.discovered == self.discovered,
            r.queued == self.queued,
            r.downloaded == self.downloaded,
            r.skipped_initial == self.skipped_initial,
            r.failed == self.failed,
            r.deleted_by_retention == self.deleted_by_retention,
            r.errors@ == self.errors@,
    {
        FeedCheckSummary {
            feed_id: self.feed_id.clone(),
            feed_title: self.feed_title.clone(),
            discovered: self.discovered,
            queued: self.queued,
            downloaded: self.downloaded,
            skipped_initial: self.skipped_initial,
            failed: self.failed,
            deleted_by_retention: self.deleted_by_retention,
            errors: clone_texts(&self.errors),
        }
    }
}

/// A copy of a list of strings.
pub fn clone_texts(v: &Vec<String>) -> (r: Vec<String>)
    ensures
        r@ == v@,
{
    let mut r: Vec<String> = Vec::new();
    let mut i: usize = 0;
    while i < v.len()
        invariant
            i <= v@.len(),
            r@ == v@.take(i as int),
        decreases v@.len() - i,
    {
        r.push(v[i].clone());
        assert(v@.take(i + 1) == v@.take(i as int).push(v@[i as int]));
        i = i + 1;
    }
    assert(v@.take(v@.len() as int) == v@);
    r
}

impl Default for FeedCheckSummary {
    fn default() -> (r: Self)
        ensures
            r.feed_id@ == Seq::<char>::empty(),
            r.feed_title@ == Seq::<char>::empty(),
            r.discovered == 0,
            r.queued == 0,
            r.downloaded == 0,
            r.skipped_initial == 0,
            r.failed == 0,
            r.deleted_by_retention == 0,
            r.errors@.len() == 0,
    {
        FeedCheckSummary {
            feed_id: String::new(),
            feed_title: String::new(),
            discovered: 0,
            queued: 0,
            downloaded: 0,
            skipped_initial: 0,
            failed: 0,
            deleted_by_retention: 0,
            errors: Vec::new(),
        }
    }
}

#[derive(Debug, PartialEq, Eq)]
pub struct CheckSummary {
    pub feeds_checked: usize,
    pub discovered: usize,
    pub queued: usize,
    pub downloaded: usize,
    pub skipped_initial: usize,
    pub failed: usize,
    pub deleted_by_retention: usize,
    pub feed_summaries: Vec<FeedCheckSummary>,
    pub errors: Vec<String>,
}

impl Default for CheckSummary {
    fn default() -> (r: Self)
        ensures
            r.feeds_checked == 0,
            r.discovered == 0,
            r.queued == 0,
            r.downloaded == 0,
            r.skipped_initial == 0,
            r.failed == 0,
            r.deleted_by_retention == 0,
            r.feed_summaries@.len() == 0,
            r.errors@.len() == 0,
    {
        CheckSummary {
            feeds_checked: 0,
            discovered: 0,
            queued: 0,
            downloaded: 0,
            skipped_initial: 0,
            failed: 0,
            deleted_by_retention: 0,
            feed_summaries: Vec::new(),
            errors: Vec::new(),
        }
    }
}

#[derive(Debug, PartialEq, Eq)]
pub struct RetentionSummary {
    pub feeds_checked: usize,
    pub files_deleted: usize,
    pub errors: Vec<String>,
}

impl Default for RetentionSummary {
    fn default() -> (r: Self)
        ensures
            r.feeds_checked == 0,
            r.files_deleted == 0,
            r.errors@.len() == 0,
    {
        RetentionSummary { feeds_checked: 0, files_deleted: 0, errors: Vec::new() }
    }
}

#[derive(Debug, Clone, Copy, PartialEq, Eq, Structural)]
pub struct LibraryStats {
    pub feeds: usize,
    pub episodes: usize,
    pub downloaded: usize,
}

impl Default for LibraryStats {
    fn default() -> (r: Self)
        ensures
            r.feeds == 0,
            r.episodes == 0,
            r.downloaded == 0,
    {
        LibraryStats { feeds: 0, episodes: 0, downloaded: 0 }
    }
}

#[derive(Debug, PartialEq, Eq)]
pub struct DownloadBatchSummary {
    pub requested: usize,
    pub queued: usize,
    pub downloaded: usize,
    pub failed: usize,
    pub feed_summaries: Vec<FeedCheckSummary>,
    pub errors: Vec<String>,
}

impl Default for DownloadBatchSummary {
    fn default() -> (r: Self)
        ensures
            r.requested == 0,
            r.queued == 0,
            r.downloaded == 0,
            r.failed == 0,
            r.feed_summaries@.len() == 0,
            r.errors@.len() == 0,
    {
        DownloadBatchSummary {
            requested: 0,
            queued: 0,
            downloaded: 0,
            failed: 0,
            feed_summaries: Vec::new(),
            errors: Vec::new(),
        }
    }
}

/// Outcome of deleting one downloaded episode by hand.
#[derive(Debug, Clone, Copy, PartialEq, Eq, Structural)]
pub struct DeleteDownloadSummary {
    pub requested: usize,
    pub deleted: usize,
    pub files_deleted: usize,
}

impl Default for DeleteDownloadSummary {
    fn default() -> (r: Self)
        ensures
            r.requested == 0,
            r.deleted == 0,
            r.files_deleted == 0,
    {
        DeleteDownloadSummary { requested: 0, deleted: 0, files_deleted: 0 }
    }
}

#[derive(Debug, Clone, PartialEq, Eq)]
pub struct DownloadFailure {
    pub feed_id: String,
    pub episode_id: String,
    pub error: String,
}

/// Events reported while feeds are checked and episodes downloaded.
#[derive(Debug, Clone, PartialEq, Eq)]
pub enum DownloadProgress {
    FeedStarted { feed_id: String, feed_title: String },
    FeedFinished {
        feed_id: String,
        feed_title: String,
        queued: usize,
        downloaded: usize,
        failed: usize,
    },
    DownloadQueued { feed_id: String, episode_id: String, episode_title: String },
    DownloadStarted {
        feed_id: String,
        episode_id: String,
        episode_title: String,
        total_bytes: Option<u64>,
    },
    DownloadAdvanced {
        feed_id: String,
        episode_id: String,
        episode_title: String,
        downloaded_bytes: u64,
        total_bytes: Option<u64>,
    },
    ConversionStarted { feed_id: String, episode_id: String, episode_title: String },
    ConversionFinished { feed_id: String, episode_id: String, episode_title: String },
    DownloadFinished {
        feed_id: String,
        episode_id: String,
        episode_title: String,
        file_path: String,
    },
    DownloadFailed { feed_id: String, episode_id: String, episode_title: String, error: String },
}

} // verus!

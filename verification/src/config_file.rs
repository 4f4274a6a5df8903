use vstd::prelude::*;

use crate::model::CoreConfig;
use crate::paths::{join_path, joined, resolve_path, resolved};
use crate::text::owned;

verus! {

/// The settings file as the user edits it. Paths are text; relative ones are taken from
/// the directory the file belongs to.
#[derive(Debug)]
pub struct FileConfig {
    pub database_path: String,
    pub download_dir: String,
    pub log_file_path: String,
    pub country: String,
    pub http_timeout_seconds: u64,
    pub user_agent: String,
    pub default_retention_limit: u32,
    pub max_concurrent_feed_fetches: usize,
    pub max_concurrent_downloads: usize,
    pub ensure_mp3: bool,
    pub ffmpeg_path: Option<String>,
    pub mp3_encoder_path: Option<String>,
}

impl Clone for FileConfig {
    fn clone(&self) -> (r: Self)
        ensures
            r == *self,
    {
        FileConfig {
            database_path: self.database_path.clone(),
            download_dir: self.download_dir.clone(),
            log_file_path: self.log_file_path.clone(),
            country: self.country.clone(),
            http_timeout_seconds: self.http_timeout_seconds,
            user_agent: self.user_agent.clone(),
            default_retention_limit: self.default_retention_limit,
            max_concurrent_feed_fetches: self.max_concurrent_feed_fetches,
            max_concurrent_downloads: self.max_concurrent_downloads,
            ensure_mp3: self.ensure_mp3,
            ffmpeg_path: self.ffmpeg_path.clone(),
            mp3_encoder_path: self.mp3_encoder_path.clone(),
        }
    }
}

impl Default for FileConfig {
    fn default() -> (r: Self)
        ensures
            r.database_path@ == "podcasts.db"@,
            r.download_dir@ == "downloads"@,
            r.log_file_path@ == "podcast_downloader.log"@,
            r.country@ == "US"@,
            r.http_timeout_seconds == 30,
            r.user_agent@ == "podcast-downloader/0.1"@,
            r.default_retention_limit == 4,
            r.max_concurrent_feed_fetches == 4,
            r.max_concurrent_downloads == 2,
            r.ensure_mp3,
            r.ffmpeg_path is None,
            r.mp3_encoder_path is None,
    {
        FileConfig {
            database_path: owned("podcasts.db"),
            download_dir: owned("downloads"),
            log_file_path: owned("podcast_downloader.log"),
            country: owned("US"),
            http_timeout_seconds: 30,
            user_agent: owned("podcast-downloader/0.1"),
            default_retention_limit: 4,
            max_concurrent_feed_fetches: 4,
            max_concurrent_downloads: 2,
            ensure_mp3: true,
            ffmpeg_path: None,
            mp3_encoder_path: None,
        }
    }
}

/// Where the settings file of a data directory lies: `config.toml` in it.
pub fn config_path(base_dir: &str) -> (r: String)
    ensures
        r@ == joined(base_dir@, "config.toml"@),
{
    join_path(base_dir, "config.toml")
}

/// The encoder the settings name: `ffmpeg_path` before `mp3_encoder_path`.
pub open spec fn chosen_encoder(c: FileConfig) -> Option<String> {
    match c.ffmpeg_path {
        Some(p) => Some(p),
        None => c.mp3_encoder_path,
    }
}

impl FileConfig {
    /// The runtime configuration these settings describe, with every path resolved from
    /// `base_dir`. The search endpoint keeps its default.
    pub fn into_core_config(self, base_dir: &str) -> (r: CoreConfig)
        ensures
            r.database_path@ == resolved(base_dir@, self.database_path@),
            r.download_dir@ == resolved(base_dir@, self.download_dir@),
            r.log_file_path matches Some(l) && l@ == resolved(base_dir@, self.log_file_path@),
            r.country == self.country,
            r.http_timeout_seconds == self.http_timeout_seconds,
            r.user_agent == self.user_agent,
            r.default_retention_limit == self.default_retention_limit,
            r.max_concurrent_feed_fetches == self.max_concurrent_feed_fetches,
            r.max_concurrent_downloads == self.max_concurrent_downloads,
            r.ensure_mp3 == self.ensure_mp3,
            r.apple_search_base_url@ == "https://itunes.apple.com/search"@,
            match chosen_encoder(self) {
                Some(p) => r.mp3_encoder_path matches Some(q) && q@ == resolved(base_dir@, p@),
                None => r.mp3_encoder_path is None,
            },
    {
        let mut config = CoreConfig::new(
            resolve_path(base_dir, self.database_path.as_str()),
            resolve_path(base_dir, self.download_dir.as_str()),
        );
        config.log_file_path = Some(resolve_path(base_dir, self.log_file_path.as_str()));
        config.country = self.country;
        config.http_timeout_seconds = self.http_timeout_seconds;
        config.user_agent = self.user_agent;
        config.default_retention_limit = self.default_retention_limit;
        config.max_concurrent_feed_fetches = self.max_concurrent_feed_fetches;
        config.max_concurrent_downloads = self.max_concurrent_downloads;
        config.ensure_mp3 = self.ensure_mp3;
        let encoder = match self.ffmpeg_path {
            Some(p) => Some(p),
            None => self.mp3_encoder_path,
        };
        config.mp3_encoder_path = match encoder {
            Some(p) => Some(resolve_path(base_dir, p.as_str())),
            None => None,
        };
        config
    }

    /// Takes a detected ffmpeg location, but only when the settings name no encoder yet.
    pub fn set_detected_ffmpeg_path(&mut self, detected: Option<String>)
        ensures
            (old(self).ffmpeg_path is None && old(self).mp3_encoder_path is None
                && detected is Some) ==> final(self).ffmpeg_path == detected,
            !(old(self).ffmpeg_path is None && old(self).mp3_encoder_path is None
                && detected is Some) ==> final(self).ffmpeg_path == old(self).ffmpeg_path,
            final(self).mp3_encoder_path == old(self).mp3_encoder_path,
            final(self).database_path == old(self).database_path,
            final(self).download_dir == old(self).download_dir,
            final(self).log_file_path == old(self).log_file_path,
            final(self).country == old(self).country,
            final(self).http_timeout_seconds == old(self).http_timeout_seconds,
            final(self).user_agent == old(self).user_agent,
            final(self).default_retention_limit == old(self).default_retention_limit,
            final(self).max_concurrent_feed_fetches == old(self).max_concurrent_feed_fetches,
            final(self).max_concurrent_downloads == old(self).max_concurrent_downloads,
            final(self).ensure_mp3 == old(self).ensure_mp3,
    {
        if self.ffmpeg_path.is_none() && self.mp3_encoder_path.is_none() {
            if let Some(path) = detected {
                self.ffmpeg_path = Some(path);
            }
        }
    }
}

} // verus!

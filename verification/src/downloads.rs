use vstd::prelude::*;

use crate::decoder::{classify_audio_format, classify_spec, lemma_mp3_content_type_is_mp3};
use crate::metadata::{
    chars_from, component_of_sanitized, date_prefix, date_prefix_of, filename_component,
    filename_safe, media_extension, sanitize_keeps, sanitized_name, sanitized_text, media_extension_of, normalized_title,
    parsed_url_path, short_hash, short_hash_of,
};
use crate::model::{error_message, EpisodeRecord, FeedSubscription, PodcastError, Result};
use crate::text::{after_last, ascii_lower, chars_of, concat, decimal, decimal_string, ends_with, has_suffix, owned, string_of_range, text_after_last};

verus! {

/// One episode to download, with the feed it belongs to.
#[derive(Debug)]
pub struct DownloadJob {
    pub feed_id: String,
    pub feed_title: String,
    pub episode: EpisodeRecord,
}

impl Clone for DownloadJob {
    fn clone(&self) -> (r: Self)
        ensures
            r == *self,
    {
        DownloadJob {
            feed_id: self.feed_id.clone(),
            feed_title: self.feed_title.clone(),
            episode: self.episode.clone(),
        }
    }
}

/// The job for an episode of a feed.
pub open spec fn job_for(feed: FeedSubscription, episode: EpisodeRecord) -> DownloadJob {
    DownloadJob { feed_id: feed.id, feed_title: feed.normalized_title, episode }
}

pub fn make_job(feed: &FeedSubscription, episode: EpisodeRecord) -> (r: DownloadJob)
    ensures
        r == job_for(*feed, episode),
{
    DownloadJob {
        feed_id: feed.id.clone(),
        feed_title: feed.normalized_title.clone(),
        episode,
    }
}

// ---------------------------------------------------------------------------
// File names
// ---------------------------------------------------------------------------

/// `c` is a file name component made from `value` with at most `max` characters: what
/// `filename_component` returns.
pub open spec fn is_component_of(c: Seq<char>, value: Seq<char>, max: nat) -> bool {
    &&& c.len() <= max
    &&& forall|i: int| 0 <= i < c.len() ==> filename_safe(#[trigger] c[i])
    &&& exists|s: Seq<char>|
        #![trigger component_of_sanitized(s, max)]
        chars_from(s, normalized_title(value)) && c == component_of_sanitized(s, max)
    &&& sanitize_keeps(sanitized_text(normalized_title(value))) ==> c == component_of_sanitized(
        sanitized_name(normalized_title(value)),
        max,
    )
}

/// `"{show} - {date} - {title}.{extension}"`: the show's title in at most 70 characters,
/// the date prefix of the episode, its title in at most 120 characters.
pub open spec fn is_base_filename(name: Seq<char>, job: DownloadJob, extension: Seq<char>) -> bool {
    exists|show: Seq<char>, title: Seq<char>|
        #![trigger is_component_of(show, job.feed_title@, 70), is_component_of(title, job.episode.normalized_title@, 120)]
        is_component_of(show, job.feed_title@, 70) && is_component_of(
            title,
            job.episode.normalized_title@,
            120,
        ) && name == show + " - "@ + date_prefix_of(job.episode.published_at.deep_view()) + " - "@
            + title + "."@ + extension
}

/// The flat file name of a downloaded episode.
pub fn base_filename(job: &DownloadJob, extension: &str) -> (r: String)
    ensures
        is_base_filename(r@, *job, extension@),
{
    let show = filename_component(job.feed_title.as_str(), 70);
    let date = match &job.episode.published_at {
        Some(p) => date_prefix(Some(p.as_str())),
        None => date_prefix(None),
    };
    let title = filename_component(job.episode.normalized_title.as_str(), 120);
    let mut r = show.clone();
    r.append(" - ");
    r.append(date.as_str());
    r.append(" - ");
    r.append(title.as_str());
    r.append(".");
    r.append(extension);
    assert(is_component_of(show@, job.feed_title@, 70));
    assert(is_component_of(title@, job.episode.normalized_title@, 120));
    r
}

// ---------------------------------------------------------------------------
// Planning a download
// ---------------------------------------------------------------------------

/// What a download will do, decided once the server's content type is known.
#[derive(Debug)]
pub struct DownloadPlan {
    /// The content type that counts: the server's, else the one the feed announced.
    pub content_type: Option<String>,
    /// The extension of the file as served.
    pub source_extension: String,
    /// Whether the file must be converted to MP3.
    pub needs_conversion: bool,
    /// The extension of the finished file.
    pub final_extension: String,
    /// The file name the episode is stored under.
    pub filename: String,
    /// The extension the temporary file is given.
    pub reservation_extension: String,
}

/// The content type that counts for a download.
pub open spec fn effective_content_type(header: Option<String>, job: DownloadJob) -> Option<Seq<char>> {
    if header is Some {
        header.deep_view()
    } else {
        job.episode.media_content_type.deep_view()
    }
}

pub open spec fn download_plan_spec(
    ensure_mp3: bool,
    job: DownloadJob,
    header: Option<String>,
    p: DownloadPlan,
) -> bool {
    let ct = effective_content_type(header, job);
    let source = media_extension_of(parsed_url_path(job.episode.media_url@), ct);
    let needs = ensure_mp3 && !(classify_spec(source, ct) is Mp3);
    let final_ext = if ensure_mp3 {
        "mp3"@
    } else {
        source
    };
    &&& p.content_type.deep_view() == ct
    &&& p.source_extension@ == source
    &&& p.needs_conversion == needs
    &&& p.final_extension@ == final_ext
    &&& is_base_filename(p.filename@, job, final_ext)
    &&& p.reservation_extension@ == (if needs {
        source
    } else {
        final_ext
    })
}

/// A download whose content type is `audio/mpeg` or `audio/mp3` (any case) is stored as
/// served: it is never converted, whatever its URL's extension.
pub proof fn lemma_mp3_download_not_converted(
    ensure_mp3: bool,
    job: DownloadJob,
    header: Option<String>,
    p: DownloadPlan,
    content_type: Seq<char>,
)
    requires
        download_plan_spec(ensure_mp3, job, header, p),
        effective_content_type(header, job) == Some(content_type),
        ascii_lower(content_type) == "audio/mpeg"@ || ascii_lower(content_type) == "audio/mp3"@,
    ensures
        !p.needs_conversion,
        p.reservation_extension@ == p.final_extension@,
{
    let source = media_extension_of(parsed_url_path(job.episode.media_url@), Some(content_type));
    lemma_mp3_content_type_is_mp3(source, content_type);
}

/// Plans a download: which extension the file has, whether it must become an MP3 (when
/// MP3 is required and the file is not one), and the name it is stored under.
pub fn plan_download(ensure_mp3: bool, job: &DownloadJob, header_content_type: Option<String>) -> (r:
    DownloadPlan)
    ensures
        download_plan_spec(ensure_mp3, *job, header_content_type, r),
{
    let content_type = match header_content_type {
        Some(h) => Some(h),
        None => job.episode.media_content_type.clone(),
    };
    let source_extension = match &content_type {
        Some(c) => media_extension(job.episode.media_url.as_str(), Some(c.as_str())),
        None => media_extension(job.episode.media_url.as_str(), None),
    };
    let format = match &content_type {
        Some(c) => classify_audio_format(source_extension.as_str(), Some(c.as_str())),
        None => classify_audio_format(source_extension.as_str(), None),
    };
    let needs_conversion = ensure_mp3 && !format.is_mp3();
    let final_extension = if ensure_mp3 {
        owned("mp3")
    } else {
        source_extension.clone()
    };
    let filename = base_filename(job, final_extension.as_str());
    let reservation_extension = if needs_conversion {
        source_extension.clone()
    } else {
        final_extension.clone()
    };
    DownloadPlan {
        content_type,
        source_extension,
        needs_conversion,
        final_extension,
        filename,
        reservation_extension,
    }
}

// ---------------------------------------------------------------------------
// Reserving a unique file name
// ---------------------------------------------------------------------------

/// A file name split at its last dot; without a dot, the whole name and "mp3".
pub open spec fn name_parts(name: Seq<char>) -> (Seq<char>, Seq<char>) {
    match after_last(name, '.') {
        Some(ext) => (name.take(name.len() - ext.len() - 1), ext),
        None => (name, "mp3"@),
    }
}

proof fn lemma_after_last_len(s: Seq<char>, c: char)
    ensures
        after_last(s, c) is Some ==> after_last(s, c)->0.len() < s.len() && s[s.len() - after_last(s, c)->0.len() - 1] == c,
        after_last(s, c) is Some ==> after_last(s, c)->0 == s.skip(s.len() - after_last(s, c)->0.len()),
    decreases s.len(),
{
    if s.len() > 0 && s.last() != c {
        lemma_after_last_len(s.drop_last(), c);
        if after_last(s.drop_last(), c) is Some {
            let t = after_last(s.drop_last(), c)->0;
            assert(s.skip(s.len() - t.len() - 1) == s.drop_last().skip(s.drop_last().len() - t.len()).push(s.last()));
        }
    } else if s.len() > 0 {
        assert(s.skip(s.len() as int) == Seq::<char>::empty());
    }
}

fn split_name(name: &str) -> (r: (String, String))
    ensures
        (r.0@, r.1@) == name_parts(name@),
{
    match text_after_last(name, '.') {
        Some(ext) => {
            proof {
                lemma_after_last_len(name@, '.');
            }
            let cs = chars_of(name);
            let stem = string_of_range(&cs, 0, cs.len() - ext.as_str().unicode_len() - 1);
            (stem, ext)
        },
        None => (owned(name), owned("mp3")),
    }
}

/// The `index`-th alternative name: "{stem} - {hash}.{ext}" first, then
/// "{stem} - {hash}-{index}.{ext}".
pub open spec fn alternative_name(stem: Seq<char>, hash: Seq<char>, ext: Seq<char>, index: nat) -> Seq<char> {
    if index == 0 {
        stem + " - "@ + hash + "."@ + ext
    } else {
        stem + " - "@ + hash + "-"@ + decimal(index) + "."@ + ext
    }
}

/// The names tried for a download, in order: the planned name, then 100 alternatives made
/// unique by the short hash of the episode key and a counter.
pub open spec fn candidate_names_spec(filename: Seq<char>, key: Seq<char>, r: Seq<String>) -> bool {
    let (stem, ext) = name_parts(filename);
    &&& r.len() == 101
    &&& r[0]@ == filename
    &&& forall|k: int|
        1 <= k < 101 ==> #[trigger] r[k]@ == alternative_name(stem, short_hash_of(key), ext, (k - 1) as nat)
}

pub fn candidate_filenames(filename: &str, key: &str) -> (r: Vec<String>)
    ensures
        candidate_names_spec(filename@, key@, r@),
{
    let hash = short_hash(key);
    let (stem, extension) = split_name(filename);
    let mut r: Vec<String> = Vec::new();
    r.push(owned(filename));
    let mut index: u64 = 0;
    while index < 100
        invariant
            index <= 100,
            r@.len() == index + 1,
            r@[0]@ == filename@,
            (stem@, extension@) == name_parts(filename@),
            hash@ == short_hash_of(key@),
            forall|k: int|
                1 <= k < r@.len() ==> #[trigger] r@[k]@ == alternative_name(stem@, hash@, extension@, (k - 1) as nat),
        decreases 100 - index,
    {
        let mut name = stem.clone();
        name.append(" - ");
        name.append(hash.as_str());
        if index > 0 {
            name.append("-");
            let digits = decimal_string(index);
            name.append(digits.as_str());
        }
        name.append(".");
        name.append(extension.as_str());
        r.push(name);
        index = index + 1;
    }
    r
}

/// `Path::file_stem` of a file name: the part before the last dot, unless that dot is the
/// first character or there is none.
pub open spec fn file_stem(name: Seq<char>) -> Seq<char> {
    match after_last(name, '.') {
        Some(ext) => if name.len() - ext.len() - 1 > 0 {
            name.take(name.len() - ext.len() - 1)
        } else {
            name
        },
        None => name,
    }
}

/// `Path::with_extension` on a file name.
pub open spec fn with_extension(name: Seq<char>, extension: Seq<char>) -> Seq<char> {
    if extension.len() == 0 {
        file_stem(name)
    } else {
        file_stem(name) + "."@ + extension
    }
}

pub fn replace_extension(name: &str, extension: &str) -> (r: String)
    ensures
        r@ == with_extension(name@, extension@),
{
    let cs = chars_of(name);
    let stem = match text_after_last(name, '.') {
        Some(ext) => {
            proof {
                lemma_after_last_len(name@, '.');
            }
            let n = ext.as_str().unicode_len();
            if cs.len() - n - 1 > 0 {
                string_of_range(&cs, 0, cs.len() - n - 1)
            } else {
                owned(name)
            }
        },
        None => owned(name),
    };
    if extension.is_empty() {
        stem
    } else {
        let mut r = stem;
        r.append(".");
        r.append(extension);
        r
    }
}

/// The lock file that reserves a candidate name.
pub fn lock_file_name(candidate: &str, extension: &str) -> (r: String)
    ensures
        r@ == with_extension(candidate@, extension@ + ".lock"@),
{
    let e = concat(extension, ".lock");
    replace_extension(candidate, e.as_str())
}

/// The temporary file a download is written to.
pub fn part_file_name(candidate: &str, source_extension: &str, unique: &str) -> (r: String)
    ensures
        r@ == with_extension(candidate@, source_extension@ + "."@ + unique@ + ".part"@),
{
    let mut e = owned(source_extension);
    e.append(".");
    e.append(unique);
    e.append(".part");
    replace_extension(candidate, e.as_str())
}

/// The temporary file a conversion writes to.
pub fn converted_part_file_name(part: &str) -> (r: String)
    ensures
        r@ == with_extension(part@, "mp3.converted.part"@),
{
    replace_extension(part, "mp3.converted.part")
}

/// The error when every candidate name is taken.
pub fn reservation_exhausted(filename: &str) -> (r: PodcastError)
    ensures
        r matches PodcastError::Io(m) && m@ == "could not reserve unique filename for "@ + filename@,
{
    PodcastError::Io(concat("could not reserve unique filename for ", filename))
}

/// How a download attempt is recorded: "downloaded", or "failed" with the error's text.
pub fn attempt_outcome(result: &Result<String>) -> (r: (&'static str, Option<String>))
    ensures
        result is Ok ==> r.0@ == "downloaded"@ && r.1 is None,
        result matches Err(e) ==> r.0@ == "failed"@ && (r.1 matches Some(m) && m@ == error_message(*e)),
{
    match result {
        Ok(_) => ("downloaded", None),
        Err(e) => ("failed", Some(e.message())),
    }
}

/// A leftover of an interrupted download: a lock file or a partial file.
pub open spec fn is_stale_temp_name(name: Seq<char>) -> bool {
    has_suffix(name, ".lock"@) || has_suffix(name, ".part"@)
}

pub fn is_stale_temp_file(name: &str) -> (r: bool)
    ensures
        r == is_stale_temp_name(name@),
{
    ends_with(name, ".lock") || ends_with(name, ".part")
}

} // verus!

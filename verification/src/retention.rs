use vstd::prelude::*;

use crate::model::{EpisodeRecord, RetentionSummary};
use crate::text::concat;

verus! {

/// The summary of one feed's retention run before any file is looked at.
pub fn start_retention() -> (r: RetentionSummary)
    ensures
        r.feeds_checked == 1,
        r.files_deleted == 0,
        r.errors@.len() == 0,
{
    RetentionSummary { feeds_checked: 1, files_deleted: 0, errors: Vec::new() }
}

/// How many of `n` downloads a limit of `limit` keeps.
pub open spec fn kept_count(n: nat, limit: nat) -> nat {
    if limit < n {
        limit
    } else {
        n
    }
}

/// The downloads past the first `limit` (newest first), which retention removes.
pub open spec fn beyond_limit(downloaded: Seq<EpisodeRecord>, limit: nat) -> Seq<EpisodeRecord> {
    downloaded.skip(kept_count(downloaded.len(), limit) as int)
}

/// The downloads within the first `limit`, which retention keeps.
pub open spec fn within_limit(downloaded: Seq<EpisodeRecord>, limit: nat) -> Seq<EpisodeRecord> {
    downloaded.take(kept_count(downloaded.len(), limit) as int)
}

/// The downloads of a feed, newest first, that lie past its limit.
pub fn episodes_beyond_limit(downloaded: Vec<EpisodeRecord>, limit: usize) -> (r: Vec<EpisodeRecord>)
    ensures
        r@ == beyond_limit(downloaded@, limit as nat),
{
    let mut out: Vec<EpisodeRecord> = Vec::new();
    let ghost start = kept_count(downloaded@.len(), limit as nat) as int;
    let mut i: usize = if limit < downloaded.len() { limit } else { downloaded.len() };
    while i < downloaded.len()
        invariant
            start <= i <= downloaded@.len(),
            start == kept_count(downloaded@.len(), limit as nat),
            out@ == downloaded@.subrange(start, i as int),
        decreases downloaded@.len() - i,
    {
        out.push(downloaded[i].clone());
        assert(out@ == downloaded@.subrange(start, i + 1));
        i = i + 1;
    }
    assert(out@ == downloaded@.skip(start));
    out
}

/// Retention keeps exactly the first `limit` downloads of the newest-first list and
/// removes the rest: the two parts make up the list, the kept part holds
/// `min(limit, n)` downloads, and nothing is removed from a feed within its limit.
pub proof fn lemma_retention_keeps_newest(downloaded: Seq<EpisodeRecord>, limit: nat)
    ensures
        within_limit(downloaded, limit) + beyond_limit(downloaded, limit) == downloaded,
        within_limit(downloaded, limit).len() == kept_count(downloaded.len(), limit),
        within_limit(downloaded, limit) == downloaded.take(within_limit(downloaded, limit).len() as int),
        downloaded.len() <= limit ==> beyond_limit(downloaded, limit).len() == 0,
        downloaded.len() > limit ==> beyond_limit(downloaded, limit).len() == downloaded.len() - limit,
{
    assert(within_limit(downloaded, limit) + beyond_limit(downloaded, limit) =~= downloaded);
}

/// What became of the file of one download that retention removes.
pub enum FileRemoval {
    /// The episode has no file on record.
    NoFile,
    /// The file was deleted.
    Removed,
    /// The file was already gone.
    Missing,
    /// Deleting the file failed, with this error text.
    Failed(String),
}

/// Counts one removal in the retention summary and says whether the episode is then
/// marked deleted. A failed deletion leaves the episode as it is and records
/// "failed deleting retained file for episode {id}: {error}".
pub fn record_removal(summary: &mut RetentionSummary, episode_id: &str, outcome: FileRemoval) -> (mark_deleted: bool)
    requires
        old(summary).files_deleted < usize::MAX,
    ensures
        final(summary).feeds_checked == old(summary).feeds_checked,
        mark_deleted == !(outcome is Failed),
        match outcome {
            FileRemoval::Removed => final(summary).files_deleted == old(summary).files_deleted + 1
                && final(summary).errors@ == old(summary).errors@,
            FileRemoval::Failed(e) => final(summary).files_deleted == old(summary).files_deleted
                && final(summary).errors@.len() == old(summary).errors@.len() + 1
                && final(summary).errors@.drop_last() == old(summary).errors@
                && final(summary).errors@.last()@ == "failed deleting retained file for episode "@
                + episode_id@ + ": "@ + e@,
            _ => final(summary).files_deleted == old(summary).files_deleted
                && final(summary).errors@ == old(summary).errors@,
        },
{
    match outcome {
        FileRemoval::Removed => {
            summary.files_deleted = summary.files_deleted + 1;
            true
        },
        FileRemoval::Failed(e) => {
            let head = concat("failed deleting retained file for episode ", episode_id);
            let head = concat(head.as_str(), ": ");
            let message = concat(head.as_str(), e.as_str());
            summary.errors.push(message);
            assert(summary.errors@.drop_last() == old(summary).errors@);
            false
        },
        _ => true,
    }
}

/// Adds one feed's retention summary to the summary over all feeds.
pub fn merge_retention(total: &mut RetentionSummary, part: RetentionSummary)
    requires
        old(total).feeds_checked + part.feeds_checked <= usize::MAX,
        old(total).files_deleted + part.files_deleted <= usize::MAX,
    ensures
        final(total).feeds_checked == old(total).feeds_checked + part.feeds_checked,
        final(total).files_deleted == old(total).files_deleted + part.files_deleted,
        final(total).errors@ == old(total).errors@ + part.errors@,
{
    total.feeds_checked = total.feeds_checked + part.feeds_checked;
    total.files_deleted = total.files_deleted + part.files_deleted;
    let mut errors = part.errors;
    total.errors.append(&mut errors);
}

} // verus!

use vstd::prelude::*;

use crate::keyed::KeyedList;
use crate::model::DownloadProgress;
use crate::text::{concat, concat3, decimal, decimal_string, owned};

verus! {

/// How far one download has come.
#[derive(Debug, Clone)]
pub struct DownloadTaskProgress {
    pub title: String,
    pub downloaded_bytes: u64,
    pub total_bytes: Option<u64>,
}

/// What the terminal monitor shows of running work, built from progress events.
#[derive(Debug)]
pub struct ProgressState {
    pub label: String,
    pub syncing_feeds: usize,
    /// Running downloads, by episode id.
    pub downloads: KeyedList<DownloadTaskProgress>,
    /// Running conversions: episode title by episode id.
    pub conversions: KeyedList<String>,
    pub queued: usize,
    pub started: usize,
    pub finished: usize,
    pub failed: usize,
    pub tick: usize,
}

impl Default for ProgressState {
    fn default() -> (r: Self)
        ensures
            r.label@.len() == 0,
            r.syncing_feeds == 0,
            r.downloads.map() == Map::<Seq<char>, DownloadTaskProgress>::empty(),
            r.conversions.map() == Map::<Seq<char>, String>::empty(),
            r.queued == 0,
            r.started == 0,
            r.finished == 0,
            r.failed == 0,
            r.tick == 0,
    {
        ProgressState {
            label: String::new(),
            syncing_feeds: 0,
            downloads: KeyedList::new(),
            conversions: KeyedList::new(),
            queued: 0,
            started: 0,
            finished: 0,
            failed: 0,
            tick: 0,
        }
    }
}

/// The task recorded for a download at `downloaded` of `total` bytes.
pub open spec fn task_is(t: DownloadTaskProgress, title: Seq<char>, downloaded: u64, total: Option<u64>) -> bool {
    t.title@ == title && t.downloaded_bytes == downloaded && t.total_bytes == total
}

/// `apply` turns the state `s` into `n` on `event`.
pub open spec fn applied(s: ProgressState, event: DownloadProgress, n: ProgressState) -> bool {
    match event {
        DownloadProgress::FeedStarted { feed_title, .. } => {
            &&& n.syncing_feeds == s.syncing_feeds.saturating_add(1)
            &&& n.label@ == "Syncing "@ + feed_title@
            &&& n.downloads.map() == s.downloads.map() && n.conversions.map() == s.conversions.map()
            &&& n.queued == s.queued && n.started == s.started && n.finished == s.finished && n.failed == s.failed
        },
        DownloadProgress::FeedFinished { feed_title, queued, failed, .. } => {
            &&& n.syncing_feeds == s.syncing_feeds.saturating_sub(1)
            &&& n.failed == s.failed.saturating_add(failed)
            &&& n.label@ == "Synced "@ + feed_title@ + ": "@ + decimal(queued as nat) + " queued, "@
                + decimal(failed as nat) + " failed"@
            &&& n.downloads.map() == s.downloads.map() && n.conversions.map() == s.conversions.map()
            &&& n.queued == s.queued && n.started == s.started && n.finished == s.finished
        },
        DownloadProgress::DownloadQueued { episode_title, .. } => {
            &&& n.queued == s.queued.saturating_add(1)
            &&& n.label@ == "Queued "@ + episode_title@
            &&& n.downloads.map() == s.downloads.map() && n.conversions.map() == s.conversions.map()
            &&& n.syncing_feeds == s.syncing_feeds && n.started == s.started && n.finished == s.finished
                && n.failed == s.failed
        },
        DownloadProgress::DownloadStarted { episode_id, episode_title, total_bytes, .. } => {
            &&& n.started == s.started.saturating_add(1)
            &&& n.downloads.map().dom() == s.downloads.map().dom().insert(episode_id@)
            &&& n.downloads.map().remove(episode_id@) == s.downloads.map().remove(episode_id@)
            &&& task_is(n.downloads.map()[episode_id@], episode_title@, 0, total_bytes)
            &&& n.label@ == "Downloading "@ + episode_title@
            &&& n.conversions.map() == s.conversions.map()
            &&& n.syncing_feeds == s.syncing_feeds && n.queued == s.queued && n.finished == s.finished
                && n.failed == s.failed
        },
        DownloadProgress::DownloadAdvanced { episode_id, episode_title, downloaded_bytes, total_bytes, .. } => {
            &&& n.downloads.map().dom() == s.downloads.map().dom().insert(episode_id@)
            &&& n.downloads.map().remove(episode_id@) == s.downloads.map().remove(episode_id@)
            &&& task_is(n.downloads.map()[episode_id@], episode_title@, downloaded_bytes, total_bytes)
            &&& n.label@ == "Downloading "@ + episode_title@
            &&& n.conversions.map() == s.conversions.map()
            &&& n.syncing_feeds == s.syncing_feeds && n.queued == s.queued && n.started == s.started
                && n.finished == s.finished && n.failed == s.failed
        },
        DownloadProgress::DownloadFinished { episode_id, episode_title, .. } => {
            &&& n.downloads.map() == s.downloads.map().remove(episode_id@)
            &&& n.finished == s.finished.saturating_add(1)
            &&& n.label@ == "Downloaded "@ + episode_title@
            &&& n.conversions.map() == s.conversions.map()
            &&& n.syncing_feeds == s.syncing_feeds && n.queued == s.queued && n.started == s.started
                && n.failed == s.failed
        },
        DownloadProgress::ConversionStarted { episode_id, episode_title, .. } => {
            &&& n.downloads.map() == s.downloads.map().remove(episode_id@)
            &&& n.conversions.map() == s.conversions.map().insert(episode_id@, episode_title)
            &&& n.label@ == "Converting "@ + episode_title@
            &&& n.syncing_feeds == s.syncing_feeds && n.queued == s.queued && n.started == s.started
                && n.finished == s.finished && n.failed == s.failed
        },
        DownloadProgress::ConversionFinished { episode_id, episode_title, .. } => {
            &&& n.conversions.map() == s.conversions.map().remove(episode_id@)
            &&& n.label@ == "Converted "@ + episode_title@
            &&& n.downloads.map() == s.downloads.map()
            &&& n.syncing_feeds == s.syncing_feeds && n.queued == s.queued && n.started == s.started
                && n.finished == s.finished && n.failed == s.failed
        },
        DownloadProgress::DownloadFailed { episode_id, episode_title, error, .. } => {
            &&& n.downloads.map() == s.downloads.map().remove(episode_id@)
            &&& n.conversions.map() == s.conversions.map().remove(episode_id@)
            &&& n.failed == s.failed.saturating_add(1)
            &&& n.label@ == episode_title@ + " failed: "@ + error@
            &&& n.syncing_feeds == s.syncing_feeds && n.queued == s.queued && n.started == s.started
                && n.finished == s.finished
        },
    }
}

/// A download that finished or failed is no longer shown as running, and a failed
/// episode is no longer shown as converting.
pub proof fn lemma_ended_download_leaves_monitor(s: ProgressState, event: DownloadProgress, n: ProgressState)
    requires
        applied(s, event, n),
    ensures
        event matches DownloadProgress::DownloadFinished { episode_id, .. } ==> !n.downloads.map().contains_key(
            episode_id@,
        ),
        event matches DownloadProgress::DownloadFailed { episode_id, .. } ==> !n.downloads.map().contains_key(
            episode_id@,
        ) && !n.conversions.map().contains_key(episode_id@),
        event matches DownloadProgress::ConversionStarted { episode_id, .. } ==> !n.downloads.map().contains_key(
            episode_id@,
        ) && n.conversions.map().contains_key(episode_id@),
{
}

fn new_task(title: &str, downloaded_bytes: u64, total_bytes: Option<u64>) -> (r: DownloadTaskProgress)
    ensures
        task_is(r, title@, downloaded_bytes, total_bytes),
{
    DownloadTaskProgress { title: owned(title), downloaded_bytes, total_bytes }
}

/// The texts of the monitor panel, before drawing.
#[derive(Debug)]
pub struct MonitorLines {
    /// "ok", or the spinner and how many feeds are syncing.
    pub sync: String,
    /// Waiting downloads over queued ones.
    pub queue: String,
    /// Running downloads.
    pub downloads: String,
    pub converting: bool,
    /// The detail line under the progress bar.
    pub detail: String,
}

pub open spec fn spinner_frame(tick: usize) -> Seq<char> {
    if tick % 4 == 0 {
        "|"@
    } else if tick % 4 == 1 {
        "/"@
    } else if tick % 4 == 2 {
        "-"@
    } else {
        "\\"@
    }
}

/// The bytes done and the positive total of a download, when it has one.
pub open spec fn known_progress(task: Option<DownloadTaskProgress>) -> Option<(u64, u64)> {
    match task {
        Some(t) => match t.total_bytes {
            Some(total) => if total > 0 {
                Some((t.downloaded_bytes, total))
            } else {
                None
            },
            None => None,
        },
        None => None,
    }
}

impl ProgressState {
    /// Takes in one progress event.
    pub fn apply(&mut self, event: DownloadProgress)
        ensures
            applied(*old(self), event, *final(self)),
            final(self).tick == old(self).tick,
    {
        match event {
            DownloadProgress::FeedStarted { feed_title, .. } => {
                self.syncing_feeds = self.syncing_feeds.saturating_add(1);
                self.label = concat("Syncing ", feed_title.as_str());
            },
            DownloadProgress::FeedFinished { feed_title, queued, failed, .. } => {
                self.syncing_feeds = self.syncing_feeds.saturating_sub(1);
                self.failed = self.failed.saturating_add(failed);
                let q = decimal_string(queued as u64);
                let f = decimal_string(failed as u64);
                let head = concat3("Synced ", feed_title.as_str(), ": ");
                let mid = concat3(head.as_str(), q.as_str(), " queued, ");
                self.label = concat3(mid.as_str(), f.as_str(), " failed");
            },
            DownloadProgress::DownloadQueued { episode_title, .. } => {
                self.queued = self.queued.saturating_add(1);
                self.label = concat("Queued ", episode_title.as_str());
            },
            DownloadProgress::DownloadStarted { episode_id, episode_title, total_bytes, .. } => {
                self.started = self.started.saturating_add(1);
                let ghost before = self.downloads.map();
                let ghost id = episode_id@;
                self.downloads.insert(episode_id, new_task(episode_title.as_str(), 0, total_bytes));
                proof {
                    assert(self.downloads.map().remove(id) =~= before.remove(id));
                    assert(self.downloads.map().dom() =~= before.dom().insert(id));
                }
                self.label = concat("Downloading ", episode_title.as_str());
            },
            DownloadProgress::DownloadAdvanced {
                episode_id,
                episode_title,
                downloaded_bytes,
                total_bytes,
                ..
            } => {
                let ghost before = self.downloads.map();
                let ghost id = episode_id@;
                self.downloads.insert(
                    episode_id,
                    new_task(episode_title.as_str(), downloaded_bytes, total_bytes),
                );
                proof {
                    assert(self.downloads.map().remove(id) =~= before.remove(id));
                    assert(self.downloads.map().dom() =~= before.dom().insert(id));
                }
                self.label = concat("Downloading ", episode_title.as_str());
            },
            DownloadProgress::DownloadFinished { episode_id, episode_title, .. } => {
                self.downloads.remove(episode_id.as_str());
                self.finished = self.finished.saturating_add(1);
                self.label = concat("Downloaded ", episode_title.as_str());
            },
            DownloadProgress::ConversionStarted { episode_id, episode_title, .. } => {
                self.downloads.remove(episode_id.as_str());
                self.label = concat("Converting ", episode_title.as_str());
                self.conversions.insert(episode_id, episode_title);
            },
            DownloadProgress::ConversionFinished { episode_id, episode_title, .. } => {
                self.conversions.remove(episode_id.as_str());
                self.label = concat("Converted ", episode_title.as_str());
            },
            DownloadProgress::DownloadFailed { episode_id, episode_title, error, .. } => {
                self.downloads.remove(episode_id.as_str());
                self.conversions.remove(episode_id.as_str());
                self.failed = self.failed.saturating_add(1);
                self.label = concat3(episode_title.as_str(), " failed: ", error.as_str());
            },
        }
    }

    /// Downloads running now.
    pub fn active_downloads(&self) -> (r: usize)
        ensures
            r == self.downloads.map().dom().len(),
    {
        self.downloads.len()
    }

    /// Conversions running now.
    pub fn active_conversions(&self) -> (r: usize)
        ensures
            r == self.conversions.map().dom().len(),
    {
        self.conversions.len()
    }

    /// Queued downloads that have not started.
    pub fn queued_pending(&self) -> (r: usize)
        ensures
            r == self.queued.saturating_sub(self.started),
    {
        self.queued.saturating_sub(self.started)
    }

    /// Downloads that ended, well or not.
    pub fn completed(&self) -> (r: usize)
        ensures
            r == self.finished.saturating_add(self.failed),
    {
        self.finished.saturating_add(self.failed)
    }

    pub fn failed(&self) -> (r: usize)
        ensures
            r == self.failed,
    {
        self.failed
    }

    pub fn queued(&self) -> (r: usize)
        ensures
            r == self.queued,
    {
        self.queued
    }

    pub fn syncing_feeds(&self) -> (r: usize)
        ensures
            r == self.syncing_feeds,
    {
        self.syncing_feeds
    }

    /// One running download.
    pub fn current_download(&self) -> (r: Option<&DownloadTaskProgress>)
        ensures
            r is None <==> self.downloads.first_value() is None,
            r matches Some(t) ==> self.downloads.first_value() == Some(*t),
            r is None <==> self.downloads.map().dom().len() == 0,
            r matches Some(t) ==> exists|k: Seq<char>| #[trigger] self.downloads.map().contains_key(k)
                && self.downloads.map()[k] == *t,
    {
        self.downloads.any_value()
    }

    /// The bytes done and the total of the current download, when its total is known and
    /// positive.
    pub fn current_download_bytes(&self) -> (r: Option<(u64, u64)>)
        ensures
            r == known_progress(self.downloads.first_value()),
            self.downloads.map().dom().len() == 0 ==> r is None,
            r matches Some((d, t)) ==> t > 0 && exists|k: Seq<char>| #[trigger] self.downloads.map().contains_key(k)
                && self.downloads.map()[k].downloaded_bytes == d && self.downloads.map()[k].total_bytes == Some(t),
    {
        match self.current_download() {
            Some(task) => match task.total_bytes {
                Some(total) => if total > 0 {
                    Some((task.downloaded_bytes, total))
                } else {
                    None
                },
                None => None,
            },
            None => None,
        }
    }

    /// The title of one running conversion.
    pub fn current_conversion_title(&self) -> (r: Option<&str>)
        ensures
            r is None <==> self.conversions.map().dom().len() == 0,
            r matches Some(t) ==> exists|k: Seq<char>| #[trigger] self.conversions.map().contains_key(k)
                && self.conversions.map()[k]@ == t@,
    {
        match self.conversions.any_value() {
            Some(t) => Some(t.as_str()),
            None => None,
        }
    }

    /// The part of queued downloads that has ended, as `(ended, queued)` with `ended` at
    /// most `queued`; nothing is queued when `queued` is zero.
    pub fn overall_fraction(&self) -> (r: (usize, usize))
        ensures
            r.1 == self.queued,
            r.0 == (if self.finished.saturating_add(self.failed) < self.queued {
                self.finished.saturating_add(self.failed)
            } else {
                self.queued
            }),
    {
        let completed = self.completed();
        if completed < self.queued {
            (completed, self.queued)
        } else {
            (self.queued, self.queued)
        }
    }

    /// The texts the monitor panel shows.
    pub fn monitor_lines(&self) -> (r: MonitorLines)
        ensures
            self.syncing_feeds == 0 ==> r.sync@ == "ok"@,
            self.syncing_feeds > 0 ==> r.sync@ == spinner_frame(self.tick) + " "@ + decimal(
                self.syncing_feeds as nat,
            ) + " feed(s)"@,
            r.queue@ == decimal(self.queued.saturating_sub(self.started) as nat) + "/"@ + decimal(
                self.queued as nat,
            ),
            r.downloads@ == decimal(self.downloads.map().dom().len()),
            r.converting == (self.conversions.map().dom().len() > 0),
            r.detail@ == "done: "@ + decimal(self.finished.saturating_add(self.failed) as nat) + "/"@
                + decimal(self.queued as nat) + "   failed: "@ + decimal(self.failed as nat)
                + "   pending: "@ + decimal(self.queued.saturating_sub(self.started) as nat)
                + "   active: "@ + decimal(self.downloads.map().dom().len()),
    {
        let active = self.active_downloads();
        let pending = self.queued_pending();
        let completed = self.completed();
        let sync = if self.syncing_feeds == 0 {
            owned("ok")
        } else {
            concat3(
                concat(self.spinner(), " ").as_str(),
                decimal_string(self.syncing_feeds as u64).as_str(),
                " feed(s)",
            )
        };
        let queue = concat3(
            decimal_string(pending as u64).as_str(),
            "/",
            decimal_string(self.queued as u64).as_str(),
        );
        let a = concat3("done: ", decimal_string(completed as u64).as_str(), "/");
        let b = concat3(a.as_str(), decimal_string(self.queued as u64).as_str(), "   failed: ");
        let c = concat3(b.as_str(), decimal_string(self.failed as u64).as_str(), "   pending: ");
        let d = concat3(c.as_str(), decimal_string(pending as u64).as_str(), "   active: ");
        let detail = concat(d.as_str(), decimal_string(active as u64).as_str());
        MonitorLines {
            sync,
            queue,
            downloads: decimal_string(active as u64),
            converting: self.active_conversions() > 0,
            detail,
        }
    }

    /// Advances the spinner.
    pub fn tick(&mut self)
        ensures
            final(self).tick == old(self).tick.wrapping_add(1),
            final(self).label == old(self).label,
            final(self).downloads == old(self).downloads,
            final(self).conversions == old(self).conversions,
            final(self).syncing_feeds == old(self).syncing_feeds,
            final(self).queued == old(self).queued,
            final(self).started == old(self).started,
            final(self).finished == old(self).finished,
            final(self).failed == old(self).failed,
    {
        self.tick = self.tick.wrapping_add(1);
    }

    /// The line the monitor shows: a running download's title, else a running
    /// conversion's, else the last label, else `fallback`.
    pub fn monitor_label<'a>(&'a self, fallback: &'a str) -> (r: &'a str)
        ensures
            self.downloads.map().dom().len() > 0 ==> exists|k: Seq<char>| #[trigger] self.downloads.map().contains_key(k)
                && self.downloads.map()[k].title@ == r@,
            self.downloads.map().dom().len() == 0 && self.conversions.map().dom().len() > 0 ==> exists|k: Seq<char>|
                #[trigger] self.conversions.map().contains_key(k) && self.conversions.map()[k]@ == r@,
            self.downloads.map().dom().len() == 0 && self.conversions.map().dom().len() == 0 ==> r@ == (
            if self.label@.len() == 0 {
                fallback@
            } else {
                self.label@
            }),
    {
        if let Some(task) = self.current_download() {
            return task.title.as_str();
        }
        if let Some(title) = self.current_conversion_title() {
            return title;
        }
        if self.label.as_str().is_empty() {
            fallback
        } else {
            self.label.as_str()
        }
    }

    /// The spinner's frame: `|`, `/`, `-`, `\` in turn.
    pub fn spinner(&self) -> (r: &'static str)
        ensures
            r@ == spinner_frame(self.tick),
    {
        let phase = self.tick % 4;
        if phase == 0 {
            "|"
        } else if phase == 1 {
            "/"
        } else if phase == 2 {
            "-"
        } else {
            "\\"
        }
    }
}

} // verus!

use vstd::prelude::*;

use crate::keyed::KeyedList;
use crate::model::{error_message, AudioEncoderStatus, CheckSummary, DownloadBatchSummary, EpisodeRecord, EpisodeStatus, FeedCheckSummary, FeedSubscription, LibraryStats, PodcastError, PodcastSearchResult, Result};
use crate::progress::ProgressState;
use crate::screen::{is_quit_key, is_text_input_key, moved_index, KeyCode, KeyPress};
use crate::text::{chars_of, concat, concat3, decimal, decimal_string, owned, push_char, same_text, string_of_range, trim, trim_whitespace};

verus! {

/// The three panels of the terminal screen.
#[derive(Debug, Clone, Copy, PartialEq, Eq, Structural)]
pub enum Panel {
    Search,
    Watching,
    Episodes,
}

/// What keys do at the moment.
#[derive(Debug, Clone, Copy, PartialEq, Eq, Structural)]
pub enum InputMode {
    Normal,
    Search,
    ConfirmUnwatch,
}

/// Background work the screen asks to be started.
#[derive(Debug)]
pub enum Spawn {
    CheckAll,
    CheckFeed(FeedSubscription),
    Downloads(Vec<String>),
}

/// The state of the terminal screen: what it shows and what runs behind it.
#[derive(Debug)]
pub struct Console {
    pub feeds: Vec<FeedSubscription>,
    pub episodes: Vec<EpisodeRecord>,
    pub episodes_feed_id: Option<String>,
    /// Episodes waiting for a download, with the status they had before.
    pub queued_episode_ids: KeyedList<EpisodeStatus>,
    pub stats: LibraryStats,
    pub search_results: Vec<PodcastSearchResult>,
    pub search_query: String,
    pub selected_feed: usize,
    pub selected_episode: usize,
    pub selected_result: usize,
    pub panel: Panel,
    pub input_mode: InputMode,
    pub status: String,
    pub encoder_status: Option<AudioEncoderStatus>,
    pub help_open: bool,
    pub progress: ProgressState,
    /// Progress events of the running work are being read.
    pub progress_open: bool,
    pub check_running: bool,
    pub download_running: bool,
    pub pending_download_ids: Vec<String>,
    pub should_quit: bool,
}

/// Progress that starts over, showing `label`.
pub open spec fn fresh_progress(p: ProgressState, label: Seq<char>) -> bool {
    &&& p.label@ == label
    &&& p.syncing_feeds == 0
    &&& p.downloads.map() == Map::<Seq<char>, crate::progress::DownloadTaskProgress>::empty()
    &&& p.conversions.map() == Map::<Seq<char>, String>::empty()
    &&& p.queued == 0 && p.started == 0 && p.finished == 0 && p.failed == 0 && p.tick == 0
}

pub open spec fn panel_after(p: Panel) -> Panel {
    match p {
        Panel::Search => Panel::Watching,
        Panel::Watching => Panel::Episodes,
        Panel::Episodes => Panel::Search,
    }
}

pub open spec fn panel_before(p: Panel) -> Panel {
    match p {
        Panel::Search => Panel::Episodes,
        Panel::Watching => Panel::Search,
        Panel::Episodes => Panel::Watching,
    }
}

/// `n` is `s` with only the status line changed, to `text`.
pub open spec fn only_status(s: Console, n: Console, text: Seq<char>) -> bool {
    n.status@ == text && n == (Console { status: n.status, ..s })
}

/// Starting a check of every feed: refused while a check runs.
pub open spec fn check_all_started(s: Console, n: Console, r: Option<Spawn>) -> bool {
    if s.check_running {
        r is None && only_status(s, n, "A check is already running."@)
    } else {
        &&& r matches Some(Spawn::CheckAll)
        &&& fresh_progress(n.progress, "Checking watched shows..."@)
        &&& n == (Console { check_running: true, progress_open: true, progress: n.progress, ..s })
    }
}

/// Starting a check of `feed`: refused while a check runs.
pub open spec fn feed_check_started(s: Console, feed: FeedSubscription, n: Console, r: Option<Spawn>) -> bool {
    if s.check_running {
        r is None && only_status(s, n, "A check is already running."@)
    } else {
        &&& (r matches Some(Spawn::CheckFeed(f)) && f == feed)
        &&& fresh_progress(n.progress, "Checking "@ + feed.normalized_title@ + "..."@)
        &&& n == (Console { check_running: true, progress_open: true, progress: n.progress, ..s })
    }
}

/// Starting the waiting downloads, which happens only when nothing runs and some wait.
pub open spec fn downloads_started(s: Console, n: Console, r: Option<Spawn>) -> bool {
    if s.check_running || s.download_running || s.pending_download_ids@.len() == 0 {
        r is None && n == s
    } else {
        &&& (r matches Some(Spawn::Downloads(ids)) && ids@ == s.pending_download_ids@)
        &&& n.pending_download_ids@.len() == 0
        &&& fresh_progress(n.progress, Seq::empty())
        &&& n == (Console {
            pending_download_ids: n.pending_download_ids,
            download_running: true,
            progress_open: true,
            progress: n.progress,
            ..s
        })
    }
}

/// The first feed with id `id`.
pub open spec fn feed_position(feeds: Seq<FeedSubscription>, id: Seq<char>) -> Option<int>
    decreases feeds.len(),
{
    if feeds.len() == 0 {
        None
    } else if feeds[0].id@ == id {
        Some(0)
    } else {
        match feed_position(feeds.drop_first(), id) {
            Some(i) => Some(i + 1),
            None => None,
        }
    }
}

proof fn lemma_feed_position(feeds: Seq<FeedSubscription>, id: Seq<char>, i: int)
    requires
        0 <= i <= feeds.len(),
        forall|j: int| 0 <= j < i ==> feeds[j].id@ != id,
    ensures
        i < feeds.len() && feeds[i].id@ == id ==> feed_position(feeds, id) == Some(i),
        i == feeds.len() ==> feed_position(feeds, id) is None,
    decreases i,
{
    if i > 0 {
        let rest = feeds.drop_first();
        assert forall|j: int| 0 <= j < i - 1 implies rest[j].id@ != id by {
            assert(rest[j] == feeds[j + 1]);
        }
        lemma_feed_position(rest, id, i - 1);
        if i < feeds.len() {
            assert(rest[i - 1] == feeds[i]);
        }
    }
}

fn find_feed(feeds: &Vec<FeedSubscription>, id: &str) -> (r: Option<usize>)
    ensures
        match r {
            Some(i) => feed_position(feeds@, id@) == Some(i as int) && i < feeds@.len(),
            None => feed_position(feeds@, id@) is None,
        },
{
    let mut i: usize = 0;
    while i < feeds.len()
        invariant
            i <= feeds@.len(),
            forall|j: int| 0 <= j < i ==> feeds@[j].id@ != id@,
        decreases feeds@.len() - i,
    {
        if same_text(feeds[i].id.as_str(), id) {
            proof {
                lemma_feed_position(feeds@, id@, i as int);
            }
            return Some(i);
        }
        i = i + 1;
    }
    proof {
        lemma_feed_position(feeds@, id@, i as int);
    }
    None
}

/// Checking the feed selected in the watch list.
pub open spec fn selected_feed_checked(s: Console, n: Console, r: Option<Spawn>) -> bool {
    if s.selected_feed < s.feeds@.len() {
        feed_check_started(s, s.feeds@[s.selected_feed as int], n, r)
    } else {
        r is None && only_status(s, n, "No watched show selected."@)
    }
}

/// Checking the feed whose episodes are shown.
pub open spec fn episode_feed_checked(s: Console, n: Console, r: Option<Spawn>) -> bool {
    match s.episodes_feed_id {
        None => r is None && only_status(s, n, "No episode feed selected."@),
        Some(id) => match feed_position(s.feeds@, id@) {
            None => r is None && only_status(s, n, "Episode feed is no longer watched."@),
            Some(i) => feed_check_started(s, s.feeds@[i], n, r),
        },
    }
}

/// The check that the `c` key starts on each panel.
pub open spec fn context_checked(s: Console, n: Console, r: Option<Spawn>) -> bool {
    match s.panel {
        Panel::Search => check_all_started(s, n, r),
        Panel::Watching => selected_feed_checked(s, n, r),
        Panel::Episodes => episode_feed_checked(s, n, r),
    }
}

/// Queuing the selected episode for download, then starting the downloads if nothing runs.
pub open spec fn episode_download_requested(s: Console, n: Console, r: Option<Spawn>) -> bool {
    if s.selected_episode >= s.episodes@.len() {
        r is None && only_status(s, n, "No episode selected."@)
    } else {
        let e = s.episodes@[s.selected_episode as int];
        if s.queued_episode_ids.map().contains_key(e.id@) {
            r is None && only_status(s, n, "Episode is already queued."@)
        } else if e.status == EpisodeStatus::Downloaded {
            r is None && only_status(s, n, "Episode is already downloaded."@)
        } else {
            let waiting = s.pending_download_ids@.push(e.id);
            &&& n.queued_episode_ids.map() == s.queued_episode_ids.map().insert(e.id@, e.status)
            &&& n.episodes@ == s.episodes@.update(
                s.selected_episode as int,
                EpisodeRecord { status: EpisodeStatus::Pending, ..e },
            )
            &&& if s.check_running || s.download_running {
                &&& r is None
                &&& n.pending_download_ids@ == waiting
                &&& n.progress.label@ == "Queued "@ + e.normalized_title@
                &&& n.progress == (ProgressState { label: n.progress.label, ..s.progress })
                &&& n == (Console {
                    queued_episode_ids: n.queued_episode_ids,
                    episodes: n.episodes,
                    pending_download_ids: n.pending_download_ids,
                    progress: n.progress,
                    ..s
                })
            } else {
                &&& (r matches Some(Spawn::Downloads(ids)) && ids@ == waiting)
                &&& n.pending_download_ids@.len() == 0
                &&& fresh_progress(n.progress, Seq::empty())
                &&& n == (Console {
                    queued_episode_ids: n.queued_episode_ids,
                    episodes: n.episodes,
                    pending_download_ids: n.pending_download_ids,
                    progress: n.progress,
                    download_running: true,
                    progress_open: true,
                    ..s
                })
            }
        }
    }
}

/// Asking to download the selected episode, when it is not queued yet, is refused as
/// already downloaded exactly when its status is Downloaded (and then nothing but the
/// status line changes); an episode with any other status, Deleted included, is queued:
/// it is remembered as queued, shown as pending, and its id is the last one waiting or the
/// last one the started downloads take.
pub proof fn lemma_download_request_refused_only_when_downloaded(
    s: Console,
    n: Console,
    r: Option<Spawn>,
)
    requires
        episode_download_requested(s, n, r),
        s.selected_episode < s.episodes@.len(),
        !s.queued_episode_ids.map().contains_key(s.episodes@[s.selected_episode as int].id@),
    ensures
        ({
            let e = s.episodes@[s.selected_episode as int];
            &&& e.status == EpisodeStatus::Downloaded ==> r is None && n == (Console {
                status: n.status,
                ..s
            }) && n.status@ == "Episode is already downloaded."@
            &&& e.status != EpisodeStatus::Downloaded ==> {
                &&& n.queued_episode_ids.map().contains_key(e.id@)
                &&& n.episodes@[s.selected_episode as int].status == EpisodeStatus::Pending
                &&& n.episodes@[s.selected_episode as int].id == e.id
                &&& ((r matches Some(Spawn::Downloads(ids)) && ids@.last() == e.id) || (r is None
                    && n.pending_download_ids@.last() == e.id))
            }
        }),
{
}

/// Moving the selection of the current panel by `delta`, within its list.
pub open spec fn moved(s: Console, delta: int, n: Console) -> bool {
    match s.panel {
        Panel::Search => n == (Console {
            selected_result: moved_index(s.selected_result as int, s.search_results@.len() as int, delta) as usize,
            ..s
        }),
        Panel::Watching => n == (Console {
            selected_feed: moved_index(s.selected_feed as int, s.feeds@.len() as int, delta) as usize,
            ..s
        }),
        Panel::Episodes => n == (Console {
            selected_episode: moved_index(s.selected_episode as int, s.episodes@.len() as int, delta) as usize,
            ..s
        }),
    }
}

/// Asking to confirm unwatching the selected feed.
pub open spec fn unwatch_prompted(s: Console, n: Console) -> bool {
    if s.selected_feed >= s.feeds@.len() {
        only_status(s, n, "No watched show selected."@)
    } else {
        n.status@ == "Unwatch "@ + s.feeds@[s.selected_feed as int].normalized_title@
            + "? Press y to confirm, n to cancel."@ && n == (Console {
            panel: Panel::Watching,
            input_mode: InputMode::ConfirmUnwatch,
            status: n.status,
            ..s
        })
    }
}

/// Choosing the feed to unwatch once confirmed.
pub open spec fn unwatch_chosen(s: Console, n: Console, r: Option<FeedSubscription>) -> bool {
    if s.selected_feed < s.feeds@.len() {
        r == Some(s.feeds@[s.selected_feed as int]) && n == s
    } else {
        r is None && n.status@ == "No watched show selected."@ && n == (Console {
            status: n.status,
            input_mode: InputMode::Normal,
            ..s
        })
    }
}

/// Choosing the feed whose episodes to open.
pub open spec fn feed_chosen(s: Console, n: Console, r: Option<FeedSubscription>) -> bool {
    if s.selected_feed < s.feeds@.len() {
        r == Some(s.feeds@[s.selected_feed as int]) && n == s
    } else {
        r is None && only_status(s, n, "No watched show selected."@)
    }
}

/// Starting a search for the typed text without surrounding whitespace.
pub open spec fn search_begun(s: Console, n: Console, r: Option<String>) -> bool {
    let q = trim(s.search_query@);
    if q.len() == 0 {
        r is None && only_status(s, n, "Search query is empty."@)
    } else {
        &&& (r matches Some(x) && x@ == q)
        &&& n.status@ == "Searching for \""@ + q + "\"..."@
        &&& n == (Console { panel: Panel::Search, status: n.status, ..s })
    }
}

/// Choosing the feed URL of the selected search result to subscribe to.
pub open spec fn subscribe_chosen(s: Console, n: Console, r: Option<String>) -> bool {
    let shown = Console { panel: Panel::Search, ..s };
    if s.selected_result >= s.search_results@.len() {
        r is None && only_status(shown, n, "No selected result to subscribe."@)
    } else {
        match s.search_results@[s.selected_result as int].feed_url {
            None => r is None && only_status(shown, n, "Selected result has no RSS feed URL."@),
            Some(u) => r == Some(u) && n == shown,
        }
    }
}




/// Background work that ended, with its result.
#[derive(Debug)]
pub enum TaskEvent {
    CheckedAll(Result<CheckSummary>),
    CheckedFeed(Result<FeedCheckSummary>),
    DownloadedEpisodes { episode_ids: Vec<String>, result: Result<DownloadBatchSummary> },
}

/// What to read again once background work has ended.
#[derive(Debug)]
pub struct Reload {
    pub feeds: bool,
    pub episodes_of: Option<String>,
}

/// The ids of a list, as a set of texts.
pub open spec fn id_set(ids: Seq<String>) -> Set<Seq<char>> {
    Set::new(|k: Seq<char>| exists|i: int| 0 <= i < ids.len() && #[trigger] ids[i]@ == k)
}

/// The work has ended: its flag drops, the progress stream closes when nothing else runs
/// or waits, and the answer says what to read again.
pub open spec fn task_closed(s: Console, event: TaskEvent, n: Console, r: Reload) -> bool {
    match event {
        TaskEvent::CheckedAll(res) => {
            let idle = !s.download_running && s.pending_download_ids@.len() == 0;
            &&& n == (Console { check_running: false, progress_open: s.progress_open && !idle, ..s })
            &&& r.feeds == (res is Ok)
            &&& r.episodes_of == (if res is Ok { s.episodes_feed_id } else { None })
        },
        TaskEvent::CheckedFeed(res) => {
            let idle = !s.download_running && s.pending_download_ids@.len() == 0;
            &&& n == (Console { check_running: false, progress_open: s.progress_open && !idle, ..s })
            &&& r.feeds == (res is Ok)
            &&& r.episodes_of == (match res {
                Ok(summary) => Some(summary.feed_id),
                Err(_) => None,
            })
        },
        TaskEvent::DownloadedEpisodes { episode_ids, result } => {
            let idle = !s.check_running && s.pending_download_ids@.len() == 0;
            &&& n.queued_episode_ids.map() == s.queued_episode_ids.map().remove_keys(id_set(episode_ids@))
            &&& n == (Console {
                download_running: false,
                queued_episode_ids: n.queued_episode_ids,
                progress_open: s.progress_open && !idle,
                ..s
            })
            &&& r.feeds == (result is Ok)
            &&& r.episodes_of == (match result {
                Ok(batch) => match s.episodes_feed_id {
                    Some(id) => Some(id),
                    None => if batch.feed_summaries@.len() > 0 {
                        Some(batch.feed_summaries@[0].feed_id)
                    } else {
                        None
                    },
                },
                Err(_) => None,
            })
        },
    }
}

/// Episode `k` is the first of the list with its id.
pub open spec fn first_with_its_id(episodes: Seq<EpisodeRecord>, k: int) -> bool {
    forall|j: int| 0 <= j < k ==> episodes[j].id@ != episodes[k].id@
}

/// `n` is `episodes` with the first episode of each of `ids` marked failed.
pub open spec fn marked_failed(episodes: Seq<EpisodeRecord>, ids: Set<Seq<char>>, n: Seq<EpisodeRecord>) -> bool {
    &&& n.len() == episodes.len()
    &&& forall|k: int|
        0 <= k < episodes.len() ==> #[trigger] n[k] == (if first_with_its_id(episodes, k) && ids.contains(
            episodes[k].id@,
        ) {
            EpisodeRecord { status: EpisodeStatus::Failed, ..episodes[k] }
        } else {
            episodes[k]
        })
}

/// The status line once the ended work has been reported.
pub open spec fn task_reported(s: Console, event: TaskEvent, n: Console) -> bool {
    match event {
        TaskEvent::CheckedAll(Ok(summary)) => only_status(
            s,
            n,
            "Checked "@ + decimal(summary.feeds_checked as nat) + " show(s): "@ + decimal(
                summary.downloaded as nat,
            ) + " downloaded, "@ + decimal(summary.queued as nat) + " queued, "@ + decimal(
                summary.failed as nat,
            ) + " failed."@,
        ),
        TaskEvent::CheckedAll(Err(e)) => only_status(s, n, "Check all failed: "@ + error_message(e)),
        TaskEvent::CheckedFeed(Ok(summary)) => only_status(
            s,
            n,
            summary.feed_title@ + ": "@ + decimal(summary.downloaded as nat) + " downloaded, "@
                + decimal(summary.queued as nat) + " queued, "@ + decimal(summary.failed as nat)
                + " failed."@,
        ),
        TaskEvent::CheckedFeed(Err(e)) => only_status(s, n, "Operation failed: "@ + error_message(e)),
        TaskEvent::DownloadedEpisodes { result: Ok(batch), .. } => only_status(
            s,
            n,
            "Downloaded "@ + decimal(batch.downloaded as nat) + " episode(s), "@ + decimal(
                batch.failed as nat,
            ) + " failed. "@ + decimal(s.queued_episode_ids.map().dom().len()) + " still queued."@,
        ),
        TaskEvent::DownloadedEpisodes { episode_ids, result: Err(e) } => {
            &&& n.status@ == "Download failed: "@ + error_message(e)
            &&& marked_failed(s.episodes@, id_set(episode_ids@), n.episodes@)
            &&& n == (Console { episodes: n.episodes, status: n.status, ..s })
        },
    }
}

fn has_id(ids: &Vec<String>, id: &str) -> (r: bool)
    ensures
        r == id_set(ids@).contains(id@),
{
    let mut i: usize = 0;
    while i < ids.len()
        invariant
            i <= ids@.len(),
            forall|j: int| 0 <= j < i ==> ids@[j]@ != id@,
        decreases ids@.len() - i,
    {
        if same_text(ids[i].as_str(), id) {
            assert(ids@[i as int]@ == id@);
            return true;
        }
        i = i + 1;
    }
    false
}

fn is_first_with_id(episodes: &Vec<EpisodeRecord>, k: usize) -> (r: bool)
    requires
        k < episodes@.len(),
    ensures
        r == first_with_its_id(episodes@, k as int),
{
    let mut j: usize = 0;
    while j < k
        invariant
            j <= k < episodes@.len(),
            forall|i: int| 0 <= i < j ==> episodes@[i].id@ != episodes@[k as int].id@,
        decreases k - j,
    {
        if same_text(episodes[j].id.as_str(), episodes[k].id.as_str()) {
            return false;
        }
        j = j + 1;
    }
    true
}

fn mark_failed(episodes: &Vec<EpisodeRecord>, ids: &Vec<String>) -> (r: Vec<EpisodeRecord>)
    ensures
        marked_failed(episodes@, id_set(ids@), r@),
{
    let mut out: Vec<EpisodeRecord> = Vec::new();
    let mut k: usize = 0;
    while k < episodes.len()
        invariant
            k <= episodes@.len(),
            out@.len() == k,
            forall|i: int|
                0 <= i < k ==> #[trigger] out@[i] == (if first_with_its_id(episodes@, i) && id_set(ids@).contains(
                    episodes@[i].id@,
                ) {
                    EpisodeRecord { status: EpisodeStatus::Failed, ..episodes@[i] }
                } else {
                    episodes@[i]
                }),
        decreases episodes@.len() - k,
    {
        let mut e = episodes[k].clone();
        if is_first_with_id(episodes, k) && has_id(ids, episodes[k].id.as_str()) {
            e.status = EpisodeStatus::Failed;
        }
        out.push(e);
        k = k + 1;
    }
    out
}


/// What the screen asks of the program after a key press.
#[derive(Debug)]
pub enum Command {
    Nothing,
    /// Search the directory for this query.
    Search(String),
    /// Subscribe to the feed at this URL.
    Subscribe(String),
    /// Read and show the episodes of this feed.
    OpenEpisodes(FeedSubscription),
    /// Ask the encoder for its status again.
    RefreshEncoder,
    /// Read the watched feeds again.
    RefreshFeeds,
    /// Unwatch this feed.
    Unwatch(FeedSubscription),
    /// Start this background work.
    Start(Spawn),
}

pub open spec fn command_text(c: Command) -> Option<String> {
    match c {
        Command::Search(q) => Some(q),
        Command::Subscribe(u) => Some(u),
        _ => None,
    }
}

pub open spec fn command_feed(c: Command) -> Option<FeedSubscription> {
    match c {
        Command::OpenEpisodes(f) => Some(f),
        Command::Unwatch(f) => Some(f),
        _ => None,
    }
}

pub open spec fn command_spawn(c: Command) -> Option<Spawn> {
    match c {
        Command::Start(s) => Some(s),
        _ => None,
    }
}

/// The search field after Backspace: its last character gone, if any.
pub open spec fn without_last(s: Seq<char>) -> Seq<char> {
    if s.len() > 0 {
        s.drop_last()
    } else {
        s
    }
}

/// Enter (or space) does what the current panel offers.
pub open spec fn primary_done(s: Console, n: Console, c: Command) -> bool {
    match s.panel {
        Panel::Search => (c is Subscribe || c is Nothing) && subscribe_chosen(s, n, command_text(c)),
        Panel::Watching => (c is OpenEpisodes || c is Nothing) && feed_chosen(s, n, command_feed(c)),
        Panel::Episodes => (c is Start || c is Nothing) && episode_download_requested(s, n, command_spawn(c)),
    }
}

/// A key typed while the search field has focus.
pub open spec fn search_key_done(s: Console, key: KeyPress, n: Console, c: Command) -> bool {
    match key.code {
        KeyCode::Esc => c is Nothing && n.status@ == "Search field unfocused. Press s to search again."@
            && n == (Console { input_mode: InputMode::Normal, status: n.status, ..s }),
        KeyCode::Enter => (c is Search || c is Nothing) && search_begun(s, n, command_text(c)),
        KeyCode::Backspace => c is Nothing && n.search_query@ == without_last(s.search_query@) && n == (
        Console { search_query: n.search_query, ..s }),
        KeyCode::Down => c is Nothing && moved(s, 1, n),
        KeyCode::Up => c is Nothing && moved(s, -1, n),
        KeyCode::Tab => c is Nothing && n == (Console {
            input_mode: InputMode::Normal,
            panel: panel_after(s.panel),
            ..s
        }),
        KeyCode::Char(ch) => c is Nothing && if is_text_entry(key) {
            n.search_query@ == s.search_query@.push(ch) && n == (Console {
                search_query: n.search_query,
                ..s
            })
        } else {
            n == s
        },
        _ => c is Nothing && n == s,
    }
}

pub open spec fn is_text_entry(key: KeyPress) -> bool {
    !(key.control || key.alt || key.super_key)
}

/// A key typed while unwatching waits for confirmation.
pub open spec fn unwatch_key_done(s: Console, key: KeyPress, n: Console, c: Command) -> bool {
    if key.code == KeyCode::Char('y') || key.code == KeyCode::Char('Y') {
        (c is Unwatch || c is Nothing) && unwatch_chosen(s, n, command_feed(c))
    } else if key.code == KeyCode::Char('n') || key.code == KeyCode::Char('N') || key.code == KeyCode::Esc {
        c is Nothing && n.status@ == "Unwatch cancelled."@ && n == (Console {
            input_mode: InputMode::Normal,
            status: n.status,
            ..s
        })
    } else {
        c is Nothing && n == s
    }
}

/// A key typed in normal mode.
pub open spec fn normal_key_done(s: Console, key: KeyPress, n: Console, c: Command) -> bool {
    let k = key.code;
    if k == KeyCode::Char('q') || k == KeyCode::Esc {
        c is Nothing && n == (Console { should_quit: true, ..s })
    } else if k == KeyCode::Char('s') {
        c is Nothing && n.status@ == "Editing search."@ && n == (Console {
            panel: Panel::Search,
            input_mode: InputMode::Search,
            status: n.status,
            ..s
        })
    } else if k == KeyCode::Char('?') {
        c is Nothing && n == (Console { help_open: true, ..s })
    } else if k == KeyCode::Char('e') {
        c is RefreshEncoder && n == s
    } else if k == KeyCode::Enter || k == KeyCode::Char(' ') {
        primary_done(s, n, c)
    } else if k == KeyCode::Tab {
        c is Nothing && n == (Console { panel: panel_after(s.panel), input_mode: InputMode::Normal, ..s })
    } else if k == KeyCode::BackTab {
        c is Nothing && n == (Console { panel: panel_before(s.panel), input_mode: InputMode::Normal, ..s })
    } else if k == KeyCode::Char('a') {
        (c is Subscribe || c is Nothing) && subscribe_chosen(s, n, command_text(c))
    } else if k == KeyCode::Char('c') {
        (c is Start || c is Nothing) && context_checked(s, n, command_spawn(c))
    } else if k == KeyCode::Char('d') {
        (c is Start || c is Nothing) && episode_download_requested(s, n, command_spawn(c))
    } else if k == KeyCode::Char('r') {
        c is RefreshFeeds && n == s
    } else if k == KeyCode::Char('u') {
        c is Nothing && unwatch_prompted(s, n)
    } else if k == KeyCode::Down || k == KeyCode::Char('j') {
        c is Nothing && moved(s, 1, n)
    } else if k == KeyCode::Up || k == KeyCode::Char('k') {
        c is Nothing && moved(s, -1, n)
    } else {
        c is Nothing && n == s
    }
}

/// A key press: Ctrl-C quits; an open help closes on Esc or Enter and takes no other
/// key; otherwise the input mode decides.
pub open spec fn key_done(s: Console, key: KeyPress, n: Console, c: Command) -> bool {
    if key.code == KeyCode::Char('c') && key.control {
        c is Nothing && n == (Console { should_quit: true, ..s })
    } else if s.help_open {
        c is Nothing && n == (Console {
            help_open: !(key.code == KeyCode::Esc || key.code == KeyCode::Enter),
            ..s
        })
    } else {
        match s.input_mode {
            InputMode::Search => search_key_done(s, key, n, c),
            InputMode::ConfirmUnwatch => unwatch_key_done(s, key, n, c),
            InputMode::Normal => normal_key_done(s, key, n, c),
        }
    }
}

/// A feed is unwatched only after confirmation: the only key that asks for unwatching is
/// `y` (or `Y`) while the screen waits for that answer; and Ctrl-C quits from any state.
pub proof fn lemma_unwatch_needs_confirmation(s: Console, key: KeyPress, n: Console, c: Command)
    requires
        key_done(s, key, n, c),
    ensures
        c is Unwatch ==> s.input_mode == InputMode::ConfirmUnwatch && !s.help_open && (key.code
            == KeyCode::Char('y') || key.code == KeyCode::Char('Y')),
        (key.code == KeyCode::Char('c') && key.control) ==> n.should_quit,
{
}

/// Subscribing is asked only for the RSS address of the selected search result.
pub proof fn lemma_subscribe_uses_selected_result(s: Console, key: KeyPress, n: Console, c: Command)
    requires
        key_done(s, key, n, c),
    ensures
        c matches Command::Subscribe(u) ==> s.selected_result < s.search_results@.len()
            && s.search_results@[s.selected_result as int].feed_url == Some(u),
{
}

fn start_command(r: Option<Spawn>) -> (c: Command)
    ensures
        (c is Start || c is Nothing) && command_spawn(c) == r,
{
    match r {
        Some(s) => Command::Start(s),
        None => Command::Nothing,
    }
}

impl Console {
    /// The screen as it opens on the library's feeds; with feeds to watch it checks them
    /// all at once.
    pub fn new(
        feeds: Vec<FeedSubscription>,
        stats: LibraryStats,
        encoder_status: AudioEncoderStatus,
    ) -> (r: (Console, Option<Spawn>))
        ensures
            r.0.feeds == feeds,
            r.0.episodes@.len() == 0,
            r.0.episodes_feed_id is None,
            r.0.queued_episode_ids.map() == Map::<Seq<char>, EpisodeStatus>::empty(),
            r.0.stats == stats,
            r.0.search_results@.len() == 0,
            r.0.search_query@.len() == 0,
            r.0.selected_feed == 0 && r.0.selected_episode == 0 && r.0.selected_result == 0,
            r.0.panel == Panel::Search,
            r.0.input_mode == InputMode::Search,
            r.0.status@ == "Type a podcast name, then press Enter to search."@,
            r.0.encoder_status == Some(encoder_status),
            !r.0.help_open,
            r.0.pending_download_ids@.len() == 0,
            !r.0.download_running,
            !r.0.should_quit,
            feeds@.len() == 0 ==> r.1 is None && !r.0.check_running && !r.0.progress_open
                && fresh_progress(r.0.progress, Seq::empty()),
            feeds@.len() > 0 ==> (r.1 matches Some(Spawn::CheckAll)) && r.0.check_running
                && r.0.progress_open && fresh_progress(r.0.progress, "Checking watched shows..."@),
    {
        let mut console = Console {
            feeds,
            episodes: Vec::new(),
            episodes_feed_id: None,
            queued_episode_ids: KeyedList::new(),
            stats,
            search_results: Vec::new(),
            search_query: String::new(),
            selected_feed: 0,
            selected_episode: 0,
            selected_result: 0,
            panel: Panel::Search,
            input_mode: InputMode::Search,
            status: owned("Type a podcast name, then press Enter to search."),
            encoder_status: Some(encoder_status),
            help_open: false,
            progress: ProgressState::default(),
            progress_open: false,
            check_running: false,
            download_running: false,
            pending_download_ids: Vec::new(),
            should_quit: false,
        };
        assert(console.progress.label@ =~= Seq::<char>::empty());
        let spawn = if console.feeds.len() > 0 {
            console.start_check_all()
        } else {
            None
        };
        (console, spawn)
    }

    fn restart_progress(&mut self, label: String)
        ensures
            fresh_progress(final(self).progress, label@),
            *final(self) == (Console { progress: final(self).progress, ..*old(self) }),
    {
        self.progress = ProgressState::default();
        self.progress.label = label;
    }

    /// Starts a check of every feed.
    pub fn start_check_all(&mut self) -> (r: Option<Spawn>)
        ensures
            check_all_started(*old(self), *final(self), r),
    {
        if self.check_running {
            self.status = owned("A check is already running.");
            return None;
        }
        self.restart_progress(owned("Checking watched shows..."));
        self.progress_open = true;
        self.check_running = true;
        Some(Spawn::CheckAll)
    }

    /// Starts a check of one feed.
    pub fn start_check_feed(&mut self, feed: FeedSubscription) -> (r: Option<Spawn>)
        ensures
            feed_check_started(*old(self), feed, *final(self), r),
    {
        if self.check_running {
            self.status = owned("A check is already running.");
            return None;
        }
        self.restart_progress(concat3("Checking ", feed.normalized_title.as_str(), "..."));
        self.progress_open = true;
        self.check_running = true;
        Some(Spawn::CheckFeed(feed))
    }

    /// Starts the waiting downloads when nothing else runs.
    pub fn start_pending_downloads_if_idle(&mut self) -> (r: Option<Spawn>)
        ensures
            downloads_started(*old(self), *final(self), r),
    {
        if self.check_running || self.download_running || self.pending_download_ids.len() == 0 {
            return None;
        }
        let mut ids: Vec<String> = Vec::new();
        std::mem::swap(&mut ids, &mut self.pending_download_ids);
        self.restart_progress(String::new());
        self.progress_open = true;
        self.download_running = true;
        Some(Spawn::Downloads(ids))
    }

    /// Checks the feed selected in the watch list.
    pub fn start_check_selected_feed(&mut self) -> (r: Option<Spawn>)
        ensures
            selected_feed_checked(*old(self), *final(self), r),
    {
        if self.selected_feed >= self.feeds.len() {
            self.status = owned("No watched show selected.");
            return None;
        }
        let feed = self.feeds[self.selected_feed].clone();
        self.start_check_feed(feed)
    }

    /// Checks the feed whose episodes are shown.
    pub fn start_check_episode_feed(&mut self) -> (r: Option<Spawn>)
        ensures
            episode_feed_checked(*old(self), *final(self), r),
    {
        let feed_id = match &self.episodes_feed_id {
            Some(id) => id.clone(),
            None => {
                self.status = owned("No episode feed selected.");
                return None;
            },
        };
        match find_feed(&self.feeds, feed_id.as_str()) {
            Some(i) => {
                let feed = self.feeds[i].clone();
                self.start_check_feed(feed)
            },
            None => {
                self.status = owned("Episode feed is no longer watched.");
                None
            },
        }
    }

    /// The check the current panel offers: every feed, the selected feed, or the feed of
    /// the shown episodes.
    pub fn context_check(&mut self) -> (r: Option<Spawn>)
        ensures
            context_checked(*old(self), *final(self), r),
    {
        match self.panel {
            Panel::Search => self.start_check_all(),
            Panel::Watching => self.start_check_selected_feed(),
            Panel::Episodes => self.start_check_episode_feed(),
        }
    }

    /// Queues the selected episode for download; it shows as pending until its download
    /// ends.
    pub fn start_download_selected_episode(&mut self) -> (r: Option<Spawn>)
        ensures
            episode_download_requested(*old(self), *final(self), r),
    {
        if self.selected_episode >= self.episodes.len() {
            self.status = owned("No episode selected.");
            return None;
        }
        let index = self.selected_episode;
        let episode = self.episodes[index].clone();
        if self.queued_episode_ids.contains(episode.id.as_str()) {
            self.status = owned("Episode is already queued.");
            return None;
        }
        if episode.status == EpisodeStatus::Downloaded {
            self.status = owned("Episode is already downloaded.");
            return None;
        }
        let ghost s = *self;
        self.queued_episode_ids.insert(episode.id.clone(), episode.status);
        let mut marked = episode.clone();
        marked.status = EpisodeStatus::Pending;
        self.episodes.set(index, marked);
        self.pending_download_ids.push(episode.id.clone());
        self.progress.label = concat("Queued ", episode.normalized_title.as_str());
        let ghost m = *self;
        let r = self.start_pending_downloads_if_idle();
        proof {
            if s.check_running || s.download_running {
                assert(*self == m);
            }
        }
        r
    }

    /// Asks to confirm unwatching the selected feed.
    pub fn prompt_unwatch(&mut self)
        ensures
            unwatch_prompted(*old(self), *final(self)),
    {
        if self.selected_feed >= self.feeds.len() {
            self.status = owned("No watched show selected.");
            return;
        }
        let message = concat3(
            "Unwatch ",
            self.feeds[self.selected_feed].normalized_title.as_str(),
            "? Press y to confirm, n to cancel.",
        );
        self.panel = Panel::Watching;
        self.input_mode = InputMode::ConfirmUnwatch;
        self.status = message;
    }

    /// The feed to unwatch once confirmed; with none selected, text entry ends and the
    /// status says so.
    pub fn unwatch_target(&mut self) -> (r: Option<FeedSubscription>)
        ensures
            unwatch_chosen(*old(self), *final(self), r),
    {
        if self.selected_feed >= self.feeds.len() {
            self.status = owned("No watched show selected.");
            self.input_mode = InputMode::Normal;
            return None;
        }
        Some(self.feeds[self.selected_feed].clone())
    }

    /// A feed was unwatched: its episodes leave the screen.
    pub fn unwatched(&mut self, feed_title: &str)
        ensures
            final(self).episodes@.len() == 0,
            final(self).status@ == "Unwatched "@ + feed_title@ + "."@,
            *final(self) == (Console {
                episodes: final(self).episodes,
                episodes_feed_id: None,
                input_mode: InputMode::Normal,
                status: final(self).status,
                ..*old(self)
            }),
    {
        self.episodes = Vec::new();
        self.episodes_feed_id = None;
        self.input_mode = InputMode::Normal;
        self.status = concat3("Unwatched ", feed_title, ".");
    }

    /// The watched feeds and the library counts were read again; the feed selection stays
    /// within the list.
    pub fn feeds_refreshed(&mut self, feeds: Vec<FeedSubscription>, stats: LibraryStats)
        ensures
            final(self).status@ == "Watching "@ + decimal(feeds@.len() as nat) + " show(s)."@,
            *final(self) == (Console {
                feeds: feeds,
                stats: stats,
                selected_feed: if old(self).selected_feed >= feeds@.len() {
                    (feeds@.len() as usize).saturating_sub(1)
                } else {
                    old(self).selected_feed
                },
                status: final(self).status,
                ..*old(self)
            }),
    {
        let count = feeds.len();
        self.feeds = feeds;
        self.stats = stats;
        if self.selected_feed >= count {
            self.selected_feed = count.saturating_sub(1);
        }
        self.status = concat3("Watching ", decimal_string(count as u64).as_str(), " show(s).");
    }

    /// The feed whose episodes the watch list opens; with none selected the status says so.
    pub fn feed_to_open(&mut self) -> (r: Option<FeedSubscription>)
        ensures
            feed_chosen(*old(self), *final(self), r),
    {
        if self.selected_feed >= self.feeds.len() {
            self.status = owned("No watched show selected.");
            return None;
        }
        Some(self.feeds[self.selected_feed].clone())
    }

    /// The episodes of `feed` were read: they are shown, the first one selected.
    pub fn episodes_opened(&mut self, feed: &FeedSubscription, episodes: Vec<EpisodeRecord>)
        ensures
            final(self).status@ == decimal(episodes@.len() as nat) + " episode record(s) for "@
                + feed.normalized_title@ + "."@,
            (final(self).episodes_feed_id matches Some(id) && id == feed.id),
            *final(self) == (Console {
                episodes: episodes,
                episodes_feed_id: final(self).episodes_feed_id,
                selected_episode: 0,
                panel: Panel::Episodes,
                status: final(self).status,
                ..*old(self)
            }),
    {
        let count = decimal_string(episodes.len() as u64);
        self.episodes = episodes;
        self.episodes_feed_id = Some(feed.id.clone());
        self.selected_episode = 0;
        self.panel = Panel::Episodes;
        self.status = concat3(
            concat(count.as_str(), " episode record(s) for ").as_str(),
            feed.normalized_title.as_str(),
            ".",
        );
    }

    /// The query to search for: the typed text without surrounding whitespace. An empty
    /// query is refused.
    pub fn begin_search(&mut self) -> (r: Option<String>)
        ensures
            search_begun(*old(self), *final(self), r),
    {
        let query = trim_whitespace(self.search_query.as_str());
        if query.as_str().is_empty() {
            self.status = owned("Search query is empty.");
            return None;
        }
        self.panel = Panel::Search;
        self.status = concat3("Searching for \"", query.as_str(), "\"...");
        Some(query)
    }

    /// The search answered: its results are shown, the first one selected, and text
    /// entry ends.
    pub fn search_finished(&mut self, results: Vec<PodcastSearchResult>)
        ensures
            final(self).status@ == "Found "@ + decimal(results@.len() as nat)
                + " result(s). Select one and press Subscribe."@,
            *final(self) == (Console {
                search_results: results,
                selected_result: 0,
                input_mode: InputMode::Normal,
                status: final(self).status,
                ..*old(self)
            }),
    {
        let count = decimal_string(results.len() as u64);
        self.search_results = results;
        self.selected_result = 0;
        self.input_mode = InputMode::Normal;
        self.status = concat3("Found ", count.as_str(), " result(s). Select one and press Subscribe.");
    }

    /// The feed URL of the selected search result, to subscribe to; the search panel is
    /// shown either way.
    pub fn subscribe_target(&mut self) -> (r: Option<String>)
        ensures
            subscribe_chosen(*old(self), *final(self), r),
    {
        self.panel = Panel::Search;
        if self.selected_result >= self.search_results.len() {
            self.status = owned("No selected result to subscribe.");
            return None;
        }
        match &self.search_results[self.selected_result].feed_url {
            Some(u) => Some(u.clone()),
            None => {
                self.status = owned("Selected result has no RSS feed URL.");
                None
            },
        }
    }

    /// A feed was subscribed (and the watch list read again): it is selected and checked.
    pub fn subscribed(&mut self, feed: FeedSubscription) -> (r: Option<Spawn>)
        ensures
            ({
                let selected = match feed_position(old(self).feeds@, feed.id@) {
                    Some(i) => i as usize,
                    None => old(self).selected_feed,
                };
                exists|m: Console|
                    #![trigger m.status]
                    m.status@ == "Now watching "@ + feed.normalized_title@ + ". Checking feed..."@
                        && m == (Console {
                        selected_feed: selected,
                        panel: Panel::Watching,
                        status: m.status,
                        ..*old(self)
                    }) && feed_check_started(m, feed, *final(self), r)
            }),
    {
        if let Some(i) = find_feed(&self.feeds, feed.id.as_str()) {
            self.selected_feed = i;
        }
        self.panel = Panel::Watching;
        self.status = concat3("Now watching ", feed.normalized_title.as_str(), ". Checking feed...");
        let ghost m = *self;
        let r = self.start_check_feed(feed);
        assert(m.status == m.status);
        r
    }

    /// Subscribing failed.
    pub fn subscribe_failed(&mut self, error: &PodcastError)
        ensures
            only_status(*old(self), *final(self), "Subscribe failed: "@ + error_message(*error)),
    {
        self.status = concat("Subscribe failed: ", error.message().as_str());
    }

    /// The encoder was asked again for its status.
    pub fn encoder_refreshed(&mut self, encoder_status: AudioEncoderStatus)
        ensures
            final(self).status@ == "Encoder status refreshed."@,
            *final(self) == (Console {
                encoder_status: Some(encoder_status),
                status: final(self).status,
                ..*old(self)
            }),
    {
        self.encoder_status = Some(encoder_status);
        self.status = owned("Encoder status refreshed.");
    }

    /// Background work ended: the screen notes it and says what to read again.
    pub fn task_finished(&mut self, event: &TaskEvent) -> (r: Reload)
        ensures
            task_closed(*old(self), *event, *final(self), r),
    {
        match event {
            TaskEvent::CheckedAll(res) => {
                self.check_running = false;
                if !self.download_running && self.pending_download_ids.len() == 0 {
                    self.progress_open = false;
                }
                let episodes_of = if res.is_ok() {
                    match &self.episodes_feed_id {
                        Some(id) => Some(id.clone()),
                        None => None,
                    }
                } else {
                    None
                };
                Reload { feeds: res.is_ok(), episodes_of }
            },
            TaskEvent::CheckedFeed(res) => {
                self.check_running = false;
                if !self.download_running && self.pending_download_ids.len() == 0 {
                    self.progress_open = false;
                }
                match res {
                    Ok(summary) => Reload { feeds: true, episodes_of: Some(summary.feed_id.clone()) },
                    Err(_) => Reload { feeds: false, episodes_of: None },
                }
            },
            TaskEvent::DownloadedEpisodes { episode_ids, result } => {
                self.download_running = false;
                let ghost start = self.queued_episode_ids.map();
                let ghost frame = *self;
                let mut i: usize = 0;
                while i < episode_ids.len()
                    invariant
                        i <= episode_ids@.len(),
                        *self == (Console { queued_episode_ids: self.queued_episode_ids, ..frame }),
                        self.queued_episode_ids.map() == start.remove_keys(id_set(episode_ids@.take(i as int))),
                    decreases episode_ids@.len() - i,
                {
                    let ghost before = self.queued_episode_ids.map();
                    self.queued_episode_ids.remove(episode_ids[i].as_str());
                    proof {
                        let a = id_set(episode_ids@.take(i as int));
                        let b = id_set(episode_ids@.take(i + 1));
                        assert forall|k: Seq<char>| b.contains(k) <==> (a.contains(k) || k == episode_ids@[i as int]@) by {
                            if b.contains(k) {
                                let j = choose|j: int| 0 <= j < i + 1 && #[trigger] episode_ids@.take(i + 1)[j]@ == k;
                                if j < i {
                                    assert(episode_ids@.take(i as int)[j] == episode_ids@.take(i + 1)[j]);
                                }
                            }
                            if a.contains(k) {
                                let j = choose|j: int| 0 <= j < i && #[trigger] episode_ids@.take(i as int)[j]@ == k;
                                assert(episode_ids@.take(i + 1)[j] == episode_ids@.take(i as int)[j]);
                            }
                            if k == episode_ids@[i as int]@ {
                                assert(episode_ids@.take(i + 1)[i as int] == episode_ids@[i as int]);
                            }
                        }
                        assert(self.queued_episode_ids.map() =~= start.remove_keys(b));
                    }
                    i = i + 1;
                }
                assert(episode_ids@.take(episode_ids@.len() as int) =~= episode_ids@);
                if !self.check_running && self.pending_download_ids.len() == 0 {
                    self.progress_open = false;
                }
                match result {
                    Ok(batch) => {
                        let episodes_of = match &self.episodes_feed_id {
                            Some(id) => Some(id.clone()),
                            None => if batch.feed_summaries.len() > 0 {
                                Some(batch.feed_summaries[0].feed_id.clone())
                            } else {
                                None
                            },
                        };
                        Reload { feeds: true, episodes_of }
                    },
                    Err(_) => Reload { feeds: false, episodes_of: None },
                }
            },
        }
    }

    /// The episodes of `feed_id` were read again after background work.
    pub fn episodes_reloaded(&mut self, feed_id: String, episodes: Vec<EpisodeRecord>)
        ensures
            *final(self) == (Console { episodes: episodes, episodes_feed_id: Some(feed_id), ..*old(self) }),
    {
        self.episodes = episodes;
        self.episodes_feed_id = Some(feed_id);
    }

    /// Reports ended background work on the status line; failed downloads show as failed.
    pub fn report_task(&mut self, event: &TaskEvent)
        ensures
            task_reported(*old(self), *event, *final(self)),
    {
        match event {
            TaskEvent::CheckedAll(Ok(summary)) => {
                let a = concat3("Checked ", decimal_string(summary.feeds_checked as u64).as_str(), " show(s): ");
                let b = concat3(a.as_str(), decimal_string(summary.downloaded as u64).as_str(), " downloaded, ");
                let c = concat3(b.as_str(), decimal_string(summary.queued as u64).as_str(), " queued, ");
                self.status = concat3(c.as_str(), decimal_string(summary.failed as u64).as_str(), " failed.");
            },
            TaskEvent::CheckedAll(Err(e)) => {
                self.status = concat("Check all failed: ", e.message().as_str());
            },
            TaskEvent::CheckedFeed(Ok(summary)) => {
                let a = concat3(summary.feed_title.as_str(), ": ", decimal_string(summary.downloaded as u64).as_str());
                let b = concat3(a.as_str(), " downloaded, ", decimal_string(summary.queued as u64).as_str());
                let c = concat3(b.as_str(), " queued, ", decimal_string(summary.failed as u64).as_str());
                self.status = concat(c.as_str(), " failed.");
            },
            TaskEvent::CheckedFeed(Err(e)) => {
                self.status = concat("Operation failed: ", e.message().as_str());
            },
            TaskEvent::DownloadedEpisodes { result: Ok(batch), .. } => {
                let waiting = self.queued_episode_ids.len();
                let a = concat3("Downloaded ", decimal_string(batch.downloaded as u64).as_str(), " episode(s), ");
                let b = concat3(a.as_str(), decimal_string(batch.failed as u64).as_str(), " failed. ");
                self.status = concat3(b.as_str(), decimal_string(waiting as u64).as_str(), " still queued.");
            },
            TaskEvent::DownloadedEpisodes { episode_ids, result: Err(e) } => {
                self.episodes = mark_failed(&self.episodes, episode_ids);
                self.status = concat("Download failed: ", e.message().as_str());
            },
        }
    }

    fn drop_last_typed(&mut self)
        ensures
            final(self).search_query@ == without_last(old(self).search_query@),
            *final(self) == (Console { search_query: final(self).search_query, ..*old(self) }),
    {
        let cs = chars_of(self.search_query.as_str());
        if cs.len() > 0 {
            self.search_query = string_of_range(&cs, 0, cs.len() - 1);
        }
    }

    fn primary_action(&mut self) -> (c: Command)
        ensures
            primary_done(*old(self), *final(self), c),
    {
        match self.panel {
            Panel::Search => match self.subscribe_target() {
                Some(u) => Command::Subscribe(u),
                None => Command::Nothing,
            },
            Panel::Watching => match self.feed_to_open() {
                Some(f) => Command::OpenEpisodes(f),
                None => Command::Nothing,
            },
            Panel::Episodes => start_command(self.start_download_selected_episode()),
        }
    }

    fn search_key(&mut self, key: KeyPress) -> (c: Command)
        ensures
            search_key_done(*old(self), key, *final(self), c),
    {
        match key.code {
            KeyCode::Esc => {
                self.input_mode = InputMode::Normal;
                self.status = owned("Search field unfocused. Press s to search again.");
                Command::Nothing
            },
            KeyCode::Enter => match self.begin_search() {
                Some(q) => Command::Search(q),
                None => Command::Nothing,
            },
            KeyCode::Backspace => {
                self.drop_last_typed();
                Command::Nothing
            },
            KeyCode::Down => {
                self.move_selection(1);
                Command::Nothing
            },
            KeyCode::Up => {
                self.move_selection(-1);
                Command::Nothing
            },
            KeyCode::Tab => {
                self.input_mode = InputMode::Normal;
                self.next_panel();
                Command::Nothing
            },
            KeyCode::Char(ch) => {
                if is_text_input_key(key) {
                    push_char(&mut self.search_query, ch);
                }
                Command::Nothing
            },
            _ => Command::Nothing,
        }
    }

    fn unwatch_key(&mut self, key: KeyPress) -> (c: Command)
        ensures
            unwatch_key_done(*old(self), key, *final(self), c),
    {
        match key.code {
            KeyCode::Char('y') | KeyCode::Char('Y') => match self.unwatch_target() {
                Some(f) => Command::Unwatch(f),
                None => Command::Nothing,
            },
            KeyCode::Char('n') | KeyCode::Char('N') | KeyCode::Esc => {
                self.input_mode = InputMode::Normal;
                self.status = owned("Unwatch cancelled.");
                Command::Nothing
            },
            _ => Command::Nothing,
        }
    }

    fn normal_key(&mut self, key: KeyPress) -> (c: Command)
        ensures
            normal_key_done(*old(self), key, *final(self), c),
    {
        match key.code {
            KeyCode::Char('q') | KeyCode::Esc => {
                self.should_quit = true;
                Command::Nothing
            },
            KeyCode::Char('s') => {
                self.panel = Panel::Search;
                self.input_mode = InputMode::Search;
                self.status = owned("Editing search.");
                Command::Nothing
            },
            KeyCode::Char('?') => {
                self.help_open = true;
                Command::Nothing
            },
            KeyCode::Char('e') => Command::RefreshEncoder,
            KeyCode::Enter | KeyCode::Char(' ') => self.primary_action(),
            KeyCode::Tab => {
                self.next_panel();
                Command::Nothing
            },
            KeyCode::BackTab => {
                self.previous_panel();
                Command::Nothing
            },
            KeyCode::Char('a') => match self.subscribe_target() {
                Some(u) => Command::Subscribe(u),
                None => Command::Nothing,
            },
            KeyCode::Char('c') => start_command(self.context_check()),
            KeyCode::Char('d') => start_command(self.start_download_selected_episode()),
            KeyCode::Char('r') => Command::RefreshFeeds,
            KeyCode::Char('u') => {
                self.prompt_unwatch();
                Command::Nothing
            },
            KeyCode::Down | KeyCode::Char('j') => {
                self.move_selection(1);
                Command::Nothing
            },
            KeyCode::Up | KeyCode::Char('k') => {
                self.move_selection(-1);
                Command::Nothing
            },
            _ => Command::Nothing,
        }
    }

    /// Takes one key press and says what the program is to do for it.
    pub fn handle_key(&mut self, key: KeyPress) -> (c: Command)
        ensures
            key_done(*old(self), key, *final(self), c),
    {
        if is_quit_key(key) {
            self.should_quit = true;
            return Command::Nothing;
        }
        if self.help_open {
            match key.code {
                KeyCode::Esc | KeyCode::Enter => {
                    self.help_open = false;
                },
                _ => {},
            }
            return Command::Nothing;
        }
        match self.input_mode {
            InputMode::Search => self.search_key(key),
            InputMode::ConfirmUnwatch => self.unwatch_key(key),
            InputMode::Normal => self.normal_key(key),
        }
    }

    /// Moves to the next panel and leaves text entry.
    pub fn next_panel(&mut self)
        ensures
            *final(self) == (Console { panel: panel_after(old(self).panel), input_mode: InputMode::Normal, ..*old(self) }),
    {
        self.input_mode = InputMode::Normal;
        self.panel = match self.panel {
            Panel::Search => Panel::Watching,
            Panel::Watching => Panel::Episodes,
            Panel::Episodes => Panel::Search,
        };
    }

    /// Moves to the previous panel and leaves text entry.
    pub fn previous_panel(&mut self)
        ensures
            *final(self) == (Console { panel: panel_before(old(self).panel), input_mode: InputMode::Normal, ..*old(self) }),
    {
        self.input_mode = InputMode::Normal;
        self.panel = match self.panel {
            Panel::Search => Panel::Episodes,
            Panel::Watching => Panel::Search,
            Panel::Episodes => Panel::Watching,
        };
    }

    /// Moves the selection of the current panel by `delta`, staying within its list.
    pub fn move_selection(&mut self, delta: isize)
        ensures
            moved(*old(self), delta as int, *final(self)),
    {
        match self.panel {
            Panel::Search => {
                self.selected_result = crate::screen::move_index(
                    self.selected_result,
                    self.search_results.len(),
                    delta,
                );
            },
            Panel::Watching => {
                self.selected_feed = crate::screen::move_index(self.selected_feed, self.feeds.len(), delta);
            },
            Panel::Episodes => {
                self.selected_episode = crate::screen::move_index(
                    self.selected_episode,
                    self.episodes.len(),
                    delta,
                );
            },
        }
    }
}

} // verus!

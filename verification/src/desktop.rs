use vstd::prelude::*;

use crate::config_file::FileConfig;
use crate::feeds::{episode_before, lemma_episode_before_asymmetric, lemma_episode_not_before_transitive, ParsedEpisodeView};
use crate::ordering::{
    lemma_insert_before_tail, lemma_stable_sort, lemma_stable_sort_step, stable_insert, stable_sort,
    strict_weak,
};
use crate::model::{AppErrorDto, AudioEncoderStatus, EpisodeRecord, EpisodeStatus, FeedSubscription, LibraryStats};
use crate::text::{compare_text, concat, owned, Order};

verus! {

// ---------------------------------------------------------------------------
// Records sent to the desktop frontend
// ---------------------------------------------------------------------------

/// A downloaded episode together with its feed.
#[derive(Debug)]
pub struct DownloadedEpisode {
    pub feed: FeedSubscription,
    pub episode: EpisodeRecord,
}

impl Clone for DownloadedEpisode {
    fn clone(&self) -> (r: Self)
        ensures
            r == *self,
    {
        DownloadedEpisode { feed: self.feed.clone(), episode: self.episode.clone() }
    }
}

/// Everything the frontend shows when it opens.
#[derive(Debug)]
pub struct InitialSnapshot {
    pub stats: LibraryStats,
    pub feeds: Vec<FeedSubscription>,
    pub downloaded_episodes: Vec<DownloadedEpisode>,
    pub settings: FileConfig,
    pub encoder_status: AudioEncoderStatus,
}

/// A long task has begun.
#[derive(Debug, Clone)]
pub struct TaskStarted {
    pub name: String,
}

/// A long task has ended, with its result.
#[derive(Debug)]
pub struct TaskFinished<T> {
    pub name: String,
    pub result: Result<T, AppErrorDto>,
}

/// The answer to saving the settings: the settings in force and the reopened library.
#[derive(Debug)]
pub struct SaveSettingsResult {
    pub settings: FileConfig,
    pub stats: LibraryStats,
    pub encoder_status: AudioEncoderStatus,
}

// ---------------------------------------------------------------------------
// One long task at a time
// ---------------------------------------------------------------------------

/// The name of the long task that is running, if any.
#[derive(Debug)]
pub struct TaskLock {
    pub active: Option<String>,
}

/// What `begin_task` answers when `active` runs: the frontend error "task_active".
pub open spec fn task_refusal(active: Seq<char>, e: AppErrorDto) -> bool {
    e.kind@ == "task_active"@ && e.message@ == active + " is already running"@
}

impl TaskLock {
    pub fn new() -> (r: TaskLock)
        ensures
            r.active is None,
    {
        TaskLock { active: None }
    }

    /// Starts task `name`, unless another task runs: then the lock stays as it is and the
    /// error names the running task.
    pub fn begin_task(&mut self, name: &str) -> (r: Result<(), AppErrorDto>)
        ensures
            (final(self).active.deep_view(), r is Ok) == begin_outcome(old(self).active.deep_view(), name@),
            old(self).active matches Some(a) ==> (r matches Err(e) && task_refusal(a@, e)),
    {
        match &self.active {
            Some(active_name) => {
                Err(
                    AppErrorDto {
                        kind: owned("task_active"),
                        message: concat(active_name.as_str(), " is already running"),
                    },
                )
            },
            None => {
                self.active = Some(owned(name));
                Ok(())
            },
        }
    }

    /// The running task has ended.
    pub fn end_task(&mut self)
        ensures
            final(self).active is None,
    {
        self.active = None;
    }
}

/// While a task runs every other is refused, naming the running one; once it ends, the
/// next one starts.
pub proof fn lemma_task_lock_excludes(first: Seq<char>, second: Seq<char>, third: Seq<char>)
    ensures
        ({
            let (after_first, r1) = begin_outcome(None, first);
            let (after_second, r2) = begin_outcome(after_first, second);
            let (after_third, r3) = begin_outcome(None, third);
            &&& r1
            &&& after_first == Some(first)
            &&& !r2 && after_second == Some(first)
            &&& r3 && after_third == Some(third)
        }),
{
}

/// The lock and the answer after `begin_task(name)` on a lock holding `active`, as the
/// contract of `begin_task` gives them.
pub open spec fn begin_outcome(active: Option<Seq<char>>, name: Seq<char>) -> (Option<Seq<char>>, bool) {
    match active {
        Some(a) => (Some(a), false),
        None => (Some(name), true),
    }
}

// ---------------------------------------------------------------------------
// Listing downloaded episodes
// ---------------------------------------------------------------------------

/// The ordering key of a listed episode: its publication time and its feed's title.
pub open spec fn listing_key(d: DownloadedEpisode) -> ParsedEpisodeView {
    ParsedEpisodeView {
        episode_key: Seq::empty(),
        raw_title: d.feed.normalized_title@,
        normalized_title: Seq::empty(),
        raw_author: None,
        published_at: d.episode.published_at.deep_view(),
        media_url: Seq::empty(),
        media_content_type: None,
        media_length_bytes: None,
    }
}

/// `a` is listed strictly before `b`: it was published later, or at the same time in a
/// feed whose title sorts first.
pub open spec fn listed_before(a: DownloadedEpisode, b: DownloadedEpisode) -> bool {
    episode_before(listing_key(a), listing_key(b))
}

/// No item is listed after one it should precede.
pub open spec fn listing_ordered(s: Seq<DownloadedEpisode>) -> bool {
    forall|i: int, j: int| 0 <= i < j < s.len() ==> !listed_before(#[trigger] s[j], #[trigger] s[i])
}

/// The downloaded episodes of one feed, each with the feed, in the given order.
pub open spec fn downloaded_of(feed: FeedSubscription, episodes: Seq<EpisodeRecord>) -> Seq<DownloadedEpisode>
    decreases episodes.len(),
{
    if episodes.len() == 0 {
        Seq::empty()
    } else {
        let before = downloaded_of(feed, episodes.drop_last());
        if episodes.last().status == EpisodeStatus::Downloaded {
            before.push(DownloadedEpisode { feed: feed, episode: episodes.last() })
        } else {
            before
        }
    }
}

/// The downloaded episodes of every feed, feed after feed.
pub open spec fn downloaded_items(library: Seq<(FeedSubscription, Vec<EpisodeRecord>)>) -> Seq<DownloadedEpisode>
    decreases library.len(),
{
    if library.len() == 0 {
        Seq::empty()
    } else {
        downloaded_items(library.drop_last()) + downloaded_of(library.last().0, library.last().1@)
    }
}

proof fn lemma_downloaded_of(feed: FeedSubscription, episodes: Seq<EpisodeRecord>)
    ensures
        forall|i: int|
            0 <= i < downloaded_of(feed, episodes).len() ==> (#[trigger] downloaded_of(
                feed,
                episodes,
            )[i]).episode.status == EpisodeStatus::Downloaded,
        forall|k: int|
            0 <= k < episodes.len() && (#[trigger] episodes[k]).status == EpisodeStatus::Downloaded
                ==> downloaded_of(feed, episodes).contains(
                DownloadedEpisode { feed: feed, episode: episodes[k] },
            ),
    decreases episodes.len(),
{
    if episodes.len() > 0 {
        let rest = episodes.drop_last();
        lemma_downloaded_of(feed, rest);
        let before = downloaded_of(feed, rest);
        let all = downloaded_of(feed, episodes);
        assert forall|k: int|
            0 <= k < episodes.len() && (#[trigger] episodes[k]).status == EpisodeStatus::Downloaded
                implies all.contains(DownloadedEpisode { feed: feed, episode: episodes[k] }) by {
            let item = DownloadedEpisode { feed: feed, episode: episodes[k] };
            if k < episodes.len() - 1 {
                assert(rest[k] == episodes[k]);
                assert(before.contains(item));
                let j = choose|j: int| 0 <= j < before.len() && before[j] == item;
                if episodes.last().status == EpisodeStatus::Downloaded {
                    assert(all[j] == before[j]);
                }
                assert(all[j] == item);
            } else {
                assert(all[all.len() - 1] == item);
            }
        }
        assert forall|i: int| 0 <= i < all.len() implies (#[trigger] all[i]).episode.status
            == EpisodeStatus::Downloaded by {
            if i < before.len() {
                assert(all[i] == before[i]);
            }
        }
    }
}

proof fn lemma_downloaded_items(library: Seq<(FeedSubscription, Vec<EpisodeRecord>)>)
    ensures
        forall|i: int|
            0 <= i < downloaded_items(library).len() ==> (#[trigger] downloaded_items(
                library,
            )[i]).episode.status == EpisodeStatus::Downloaded,
        forall|f: int, k: int|
            0 <= f < library.len() && 0 <= k < library[f].1@.len() && (
            #[trigger] library[f].1@[k]).status == EpisodeStatus::Downloaded
                ==> downloaded_items(library).contains(
                DownloadedEpisode { feed: library[f].0, episode: library[f].1@[k] },
            ),
    decreases library.len(),
{
    if library.len() > 0 {
        let rest = library.drop_last();
        lemma_downloaded_items(rest);
        let last = library.last();
        lemma_downloaded_of(last.0, last.1@);
        let a = downloaded_items(rest);
        let b = downloaded_of(last.0, last.1@);
        let all = downloaded_items(library);
        assert(all == a + b);
        assert forall|i: int| 0 <= i < all.len() implies (#[trigger] all[i]).episode.status
            == EpisodeStatus::Downloaded by {
            if i < a.len() {
                assert(all[i] == a[i]);
            } else {
                assert(all[i] == b[i - a.len()]);
            }
        }
        assert forall|f: int, k: int|
            0 <= f < library.len() && 0 <= k < library[f].1@.len() && (
            #[trigger] library[f].1@[k]).status == EpisodeStatus::Downloaded implies all.contains(
            DownloadedEpisode { feed: library[f].0, episode: library[f].1@[k] },
        ) by {
            let item = DownloadedEpisode { feed: library[f].0, episode: library[f].1@[k] };
            if f < library.len() - 1 {
                assert(rest[f] == library[f]);
                assert(rest[f].1@[k] == library[f].1@[k]);
                assert(a.contains(item));
                let j = choose|j: int| 0 <= j < a.len() && a[j] == item;
                assert(all[j] == a[j]);
            } else {
                assert(last.1@[k] == library[f].1@[k]);
                assert(b.contains(item));
                let j = choose|j: int| 0 <= j < b.len() && b[j] == item;
                assert(all[a.len() + j] == b[j]);
            }
        }
    }
}

/// A listing that holds the library's downloaded items, in any order, lists only
/// downloaded episodes, and every downloaded episode of the library: one whose download
/// was removed, or that is pending, failed or skipped, is never listed.
pub proof fn lemma_listing_holds_exactly_the_downloaded(
    library: Seq<(FeedSubscription, Vec<EpisodeRecord>)>,
    listed: Seq<DownloadedEpisode>,
)
    requires
        listed.to_multiset() == downloaded_items(library).to_multiset(),
    ensures
        forall|i: int|
            0 <= i < listed.len() ==> (#[trigger] listed[i]).episode.status
                == EpisodeStatus::Downloaded,
        forall|f: int, k: int|
            0 <= f < library.len() && 0 <= k < library[f].1@.len() && (
            #[trigger] library[f].1@[k]).status == EpisodeStatus::Downloaded ==> listed.contains(
                DownloadedEpisode { feed: library[f].0, episode: library[f].1@[k] },
            ),
{
    broadcast use vstd::seq_lib::group_to_multiset_ensures;

    lemma_downloaded_items(library);
    let items = downloaded_items(library);
    assert forall|i: int| 0 <= i < listed.len() implies (#[trigger] listed[i]).episode.status
        == EpisodeStatus::Downloaded by {
        assert(listed.contains(listed[i]));
        assert(items.to_multiset().count(listed[i]) > 0);
        assert(items.contains(listed[i]));
        let j = choose|j: int| 0 <= j < items.len() && items[j] == listed[i];
        assert(items[j].episode.status == EpisodeStatus::Downloaded);
    }
    assert forall|f: int, k: int|
        0 <= f < library.len() && 0 <= k < library[f].1@.len() && (
        #[trigger] library[f].1@[k]).status == EpisodeStatus::Downloaded implies listed.contains(
        DownloadedEpisode { feed: library[f].0, episode: library[f].1@[k] },
    ) by {
        let item = DownloadedEpisode { feed: library[f].0, episode: library[f].1@[k] };
        assert(items.contains(item));
        assert(items.to_multiset().count(item) > 0);
    }
}

fn listed_earlier(a: &DownloadedEpisode, b: &DownloadedEpisode) -> (r: bool)
    ensures
        r == listed_before(*a, *b),
{
    let pa = &a.episode.published_at;
    let pb = &b.episode.published_at;
    let dates = match (pa, pb) {
        (None, None) => Order::Equal,
        (None, Some(_)) => Order::Less,
        (Some(_), None) => Order::Greater,
        (Some(x), Some(y)) => compare_text(x.as_str(), y.as_str()),
    };
    proof {
        if pa is Some && pb is Some {
            crate::text::lemma_text_lt_asymmetric(pa->0@, pb->0@);
            crate::text::lemma_text_lt_irreflexive(pa->0@);
            crate::text::lemma_text_lt_total(pa->0@, pb->0@);
        }
    }
    match dates {
        Order::Greater => true,
        Order::Less => false,
        Order::Equal => compare_text(a.feed.normalized_title.as_str(), b.feed.normalized_title.as_str())
            == Order::Less,
    }
}

/// The order of the listing.
pub open spec fn listing_first() -> spec_fn(DownloadedEpisode, DownloadedEpisode) -> bool {
    |a: DownloadedEpisode, b: DownloadedEpisode| listed_before(a, b)
}

proof fn lemma_listing_first_strict_weak()
    ensures
        strict_weak(listing_first()),
{
    assert forall|a: DownloadedEpisode, b: DownloadedEpisode| #[trigger] listing_first()(a, b) implies !listing_first()(b, a) by {
        lemma_episode_before_asymmetric(listing_key(a), listing_key(b));
    }
    assert forall|a: DownloadedEpisode, b: DownloadedEpisode, c: DownloadedEpisode|
        #![trigger listing_first()(b, a), listing_first()(c, b)]
        !listing_first()(b, a) && !listing_first()(c, b) implies !listing_first()(c, a) by {
        lemma_episode_not_before_transitive(listing_key(a), listing_key(b), listing_key(c));
    }
}

fn sort_listing(items: &mut Vec<DownloadedEpisode>)
    ensures
        final(items)@ == stable_sort(old(items)@, listing_first()),
        listing_ordered(final(items)@),
        final(items)@.to_multiset() == old(items)@.to_multiset(),
{
    let ghost unsorted = items@;
    let n = items.len();
    let mut i: usize = 0;
    assert(items@.take(0) =~= stable_sort(unsorted.take(0), listing_first()));
    assert(items@.skip(0) =~= unsorted.skip(0));
    while i < n
        invariant
            i <= n == items@.len() == unsorted.len(),
            items@.take(i as int) == stable_sort(unsorted.take(i as int), listing_first()),
            items@.skip(i as int) == unsorted.skip(i as int),
        decreases n - i,
    {
        let ghost p = items@.take(i as int);
        let ghost x = unsorted[i as int];
        proof {
            lemma_stable_sort_step(unsorted, i as int, listing_first());
            assert(p.take(i as int) =~= p);
            assert(p.skip(i as int) =~= Seq::<DownloadedEpisode>::empty());
            assert(unsorted.skip(i as int) =~= seq![x] + unsorted.skip(i + 1));
            assert(items@ =~= items@.take(i as int) + items@.skip(i as int));
            assert(items@ =~= p.take(i as int) + seq![x] + p.skip(i as int) + unsorted.skip(i + 1));
        }
        let mut j: usize = i;
        while j > 0 && listed_earlier(&items[j], &items[j - 1])
            invariant
                0 <= j <= i < n == items@.len() == unsorted.len(),
                p.len() == i,
                x == unsorted[i as int],
                items@ == p.take(j as int) + seq![x] + p.skip(j as int) + unsorted.skip(i + 1),
                forall|m: int| j <= m < i ==> listing_first()(x, #[trigger] p[m]),
            decreases j,
        {
            assert(items@[j as int] == x);
            assert(items@[j - 1] == p[j - 1]);
            let y = items.remove(j);
            items.insert(j - 1, y);
            assert(items@ =~= p.take(j - 1) + seq![x] + p.skip(j - 1) + unsorted.skip(i + 1));
            j = j - 1;
        }
        proof {
            if j > 0 {
                assert(items@[j as int] == x);
                assert(items@[j - 1] == p[j - 1]);
                assert(p.take(j as int).last() == p[j - 1]);
            }
            lemma_insert_before_tail(p, x, listing_first(), j as int);
            assert(stable_insert(p.take(j as int), x, listing_first()) == p.take(j as int).push(x));
            assert(items@.take(i + 1) =~= p.take(j as int).push(x) + p.skip(j as int));
            assert(items@.skip(i + 1) =~= unsorted.skip(i + 1));
        }
        i = i + 1;
    }
    proof {
        assert(items@.take(n as int) =~= items@);
        assert(unsorted.take(n as int) =~= unsorted);
        lemma_listing_first_strict_weak();
        lemma_stable_sort(unsorted, listing_first());
        let r = items@;
        assert forall|a: int, b: int| 0 <= a < b < r.len() implies !listed_before(#[trigger] r[b], #[trigger] r[a]) by {
            assert(!listing_first()(r[b], r[a]));
        }
    }
}

/// The downloaded episodes of the library (each feed with its episodes), newest first,
/// equal dates by feed title.
pub fn downloaded_episodes(library: Vec<(FeedSubscription, Vec<EpisodeRecord>)>) -> (r: Vec<DownloadedEpisode>)
    ensures
        r@ == stable_sort(downloaded_items(library@), listing_first()),
        r@.to_multiset() == downloaded_items(library@).to_multiset(),
        listing_ordered(r@),
        forall|i: int| 0 <= i < r@.len() ==> (#[trigger] r@[i]).episode.status
            == EpisodeStatus::Downloaded,
        forall|f: int, k: int|
            0 <= f < library@.len() && 0 <= k < library@[f].1@.len() && (
            #[trigger] library@[f].1@[k]).status == EpisodeStatus::Downloaded ==> r@.contains(
                DownloadedEpisode { feed: library@[f].0, episode: library@[f].1@[k] },
            ),
{
    let mut items: Vec<DownloadedEpisode> = Vec::new();
    let mut f: usize = 0;
    while f < library.len()
        invariant
            f <= library@.len(),
            items@ == downloaded_items(library@.take(f as int)),
        decreases library@.len() - f,
    {
        let feed = &library[f].0;
        let episodes = &library[f].1;
        let ghost start = items@;
        let mut e: usize = 0;
        while e < episodes.len()
            invariant
                f < library@.len(),
                *feed == library@[f as int].0,
                *episodes == library@[f as int].1,
                e <= episodes@.len(),
                items@ == start + downloaded_of(*feed, episodes@.take(e as int)),
            decreases episodes@.len() - e,
        {
            assert(episodes@.take(e + 1).drop_last() =~= episodes@.take(e as int));
            if episodes[e].status == EpisodeStatus::Downloaded {
                let item = DownloadedEpisode { feed: feed.clone(), episode: episodes[e].clone() };
                items.push(item);
            }
            e = e + 1;
        }
        proof {
            assert(episodes@.take(episodes@.len() as int) =~= episodes@);
            assert(library@.take(f + 1).drop_last() =~= library@.take(f as int));
        }
        f = f + 1;
    }
    assert(library@.take(library@.len() as int) =~= library@);
    sort_listing(&mut items);
    proof {
        lemma_listing_holds_exactly_the_downloaded(library@, items@);
    }
    items
}

} // verus!

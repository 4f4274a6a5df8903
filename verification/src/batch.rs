use vstd::prelude::*;

use crate::model::{DownloadBatchSummary, FeedCheckSummary, FeedSubscription, PodcastError, Result};
use crate::ordering::{
    lemma_insert_before_tail, lemma_stable_sort, lemma_stable_sort_step, stable_insert, stable_sort,
    strict_weak,
};
use crate::sync::{
    count_sum, has_text, lemma_count_sum_permutation, lemma_count_sum_update, start_feed_check,
    JobResult,
};
use crate::text::{compare_text, concat, owned, lemma_text_lt_asymmetric, lemma_text_lt_total, lemma_text_lt_transitive, same_text, text_lt, Order};

verus! {

/// A manual download of chosen episodes while it is being planned and run: the summary,
/// the episode ids already taken, and one summary per feed involved, in the order the
/// feeds were first met.
pub struct BatchPlan {
    pub summary: DownloadBatchSummary,
    pub seen: Vec<String>,
    pub feed_summaries: Vec<FeedCheckSummary>,
}

/// No two feed summaries are for the same feed.
pub open spec fn distinct_feeds(s: Seq<FeedCheckSummary>) -> bool {
    forall|i: int, j: int| 0 <= i < j < s.len() ==> #[trigger] s[i].feed_id@ != #[trigger] s[j].feed_id@
}

/// No id is taken twice.
pub open spec fn distinct_texts(s: Seq<String>) -> bool {
    forall|i: int, j: int| 0 <= i < j < s.len() ==> #[trigger] s[i]@ != #[trigger] s[j]@
}

impl BatchPlan {
    /// The plan is consistent: ids and feeds occur once each.
    pub open spec fn wf(&self) -> bool {
        distinct_texts(self.seen@) && distinct_feeds(self.feed_summaries@)
    }
}

/// Starts a batch of `requested` episode ids.
pub fn begin_batch(requested: usize) -> (r: BatchPlan)
    ensures
        r.wf(),
        r.summary.requested == requested,
        r.summary.queued == 0,
        r.summary.downloaded == 0,
        r.summary.failed == 0,
        r.summary.errors@.len() == 0,
        r.summary.feed_summaries@.len() == 0,
        r.seen@.len() == 0,
        r.feed_summaries@.len() == 0,
        batch_totals(r),
{
    BatchPlan {
        summary: DownloadBatchSummary {
            requested,
            queued: 0,
            downloaded: 0,
            failed: 0,
            feed_summaries: Vec::new(),
            errors: Vec::new(),
        },
        seen: Vec::new(),
        feed_summaries: Vec::new(),
    }
}

fn contains_id(ids: &Vec<String>, id: &str) -> (r: bool)
    ensures
        r == has_text(ids@, id@),
{
    let mut i: usize = 0;
    while i < ids.len()
        invariant
            i <= ids@.len(),
            forall|j: int| 0 <= j < i ==> ids@[j]@ != id@,
        decreases ids@.len() - i,
    {
        if same_text(ids[i].as_str(), id) {
            return true;
        }
        i = i + 1;
    }
    false
}

/// Takes an episode id into the batch. An id asked for a second time is refused: it counts
/// as a failure with the text "duplicate episode id requested: {id}".
pub fn admit_episode(plan: &mut BatchPlan, episode_id: &str) -> (admitted: bool)
    requires
        old(plan).wf(),
        old(plan).summary.failed < usize::MAX,
    ensures
        final(plan).wf(),
        admitted == !has_text(old(plan).seen@, episode_id@),
        admitted ==> final(plan).seen@.len() == old(plan).seen@.len() + 1 && final(plan).seen@.last()@
            == episode_id@ && final(plan).seen@.drop_last() == old(plan).seen@
            && final(plan).summary == old(plan).summary,
        !admitted ==> final(plan).seen@ == old(plan).seen@ && final(plan).summary.failed == old(
            plan,
        ).summary.failed + 1 && final(plan).summary.errors@.len() == old(plan).summary.errors@.len()
            + 1 && final(plan).summary.errors@.last()@ == "duplicate episode id requested: "@
            + episode_id@ && final(plan).summary.errors@.drop_last() == old(plan).summary.errors@
            && final(plan).summary.queued == old(plan).summary.queued
            && final(plan).summary.downloaded == old(plan).summary.downloaded
            && final(plan).summary.requested == old(plan).summary.requested,
        final(plan).feed_summaries@ == old(plan).feed_summaries@,
{
    if contains_id(&plan.seen, episode_id) {
        plan.summary.failed = plan.summary.failed + 1;
        plan.summary.errors.push(concat("duplicate episode id requested: ", episode_id));
        false
    } else {
        plan.seen.push(concat("", episode_id));
        proof {
            reveal_strlit("");
            assert(""@ + episode_id@ =~= episode_id@);
            assert(plan.seen@.drop_last() == old(plan).seen@);
        }
        true
    }
}

/// Once an id is taken into a batch, asking for it again is refused: after `admit_episode`
/// takes `id`, the taken ids hold it.
pub proof fn lemma_admitted_id_is_refused_again(seen: Seq<String>, taken: String, id: Seq<char>)
    requires
        taken@ == id,
    ensures
        has_text(seen.push(taken), id),
{
    assert(seen.push(taken)[seen.len() as int]@ == id);
}

/// Records an episode (or its feed) that the library does not hold: a failure with the
/// text "not found: {id}".
pub fn record_missing(plan: &mut BatchPlan, id: &str)
    requires
        old(plan).summary.failed < usize::MAX,
    ensures
        final(plan).summary.failed == old(plan).summary.failed + 1,
        final(plan).summary.errors@.len() == old(plan).summary.errors@.len() + 1,
        final(plan).summary.errors@.last()@ == "not found: "@ + id@,
        final(plan).summary.errors@.drop_last() == old(plan).summary.errors@,
        final(plan).summary.queued == old(plan).summary.queued,
        final(plan).summary.downloaded == old(plan).summary.downloaded,
        final(plan).summary.requested == old(plan).summary.requested,
        final(plan).seen == old(plan).seen,
        final(plan).feed_summaries == old(plan).feed_summaries,
{
    plan.summary.failed = plan.summary.failed + 1;
    plan.summary.errors.push(concat("not found: ", id));
    assert(plan.summary.errors@.drop_last() == old(plan).summary.errors@);
}

/// The position of the summary for `feed_id`, if the batch has one.
pub open spec fn summary_index(s: Seq<FeedCheckSummary>, feed_id: Seq<char>) -> Option<int> {
    if exists|i: int| 0 <= i < s.len() && s[i].feed_id@ == feed_id {
        Some(choose|i: int| 0 <= i < s.len() && s[i].feed_id@ == feed_id)
    } else {
        None
    }
}

fn find_summary(s: &Vec<FeedCheckSummary>, feed_id: &str) -> (r: Option<usize>)
    requires
        distinct_feeds(s@),
    ensures
        match r {
            Some(i) => i < s@.len() && s@[i as int].feed_id@ == feed_id@ && summary_index(s@, feed_id@)
                == Some(i as int),
            None => summary_index(s@, feed_id@) is None,
        },
{
    let mut i: usize = 0;
    while i < s.len()
        invariant
            i <= s@.len(),
            distinct_feeds(s@),
            forall|j: int| 0 <= j < i ==> s@[j].feed_id@ != feed_id@,
        decreases s@.len() - i,
    {
        if same_text(s[i].feed_id.as_str(), feed_id) {
            proof {
                let k = choose|k: int| 0 <= k < s@.len() && s@[k].feed_id@ == feed_id@;
                if k > i {
                    assert(s@[i as int].feed_id@ != s@[k].feed_id@);
                }
            }
            return Some(i);
        }
        i = i + 1;
    }
    None
}

/// What queueing an episode of `feed` does to a batch: one more queued overall and in the
/// feed's summary, which is started (empty) when the feed is met for the first time.
pub open spec fn queued_recorded(before: BatchPlan, after: BatchPlan, feed: FeedSubscription) -> bool {
    &&& after.summary.queued == before.summary.queued + 1
    &&& after.summary.failed == before.summary.failed
    &&& after.summary.downloaded == before.summary.downloaded
    &&& after.summary.requested == before.summary.requested
    &&& after.summary.errors == before.summary.errors
    &&& after.seen == before.seen
    &&& match summary_index(before.feed_summaries@, feed.id@) {
        Some(i) => after.feed_summaries@.len() == before.feed_summaries@.len()
            && after.feed_summaries@[i].queued == before.feed_summaries@[i].queued + 1
            && after.feed_summaries@[i].feed_id == before.feed_summaries@[i].feed_id
            && after.feed_summaries@[i].downloaded == before.feed_summaries@[i].downloaded
            && after.feed_summaries@[i].failed == before.feed_summaries@[i].failed
            && after.feed_summaries@[i].feed_title == before.feed_summaries@[i].feed_title
            && after.feed_summaries@[i].discovered == before.feed_summaries@[i].discovered
            && after.feed_summaries@[i].skipped_initial == before.feed_summaries@[i].skipped_initial
            && after.feed_summaries@[i].deleted_by_retention == before.feed_summaries@[i].deleted_by_retention
            && after.feed_summaries@[i].errors == before.feed_summaries@[i].errors
            && forall|k: int| 0 <= k < before.feed_summaries@.len() && k != i ==> #[trigger] after.feed_summaries@[k] == before.feed_summaries@[k],
        None => after.feed_summaries@.len() == before.feed_summaries@.len() + 1
            && after.feed_summaries@.drop_last() == before.feed_summaries@
            && after.feed_summaries@.last().feed_id == feed.id
            && after.feed_summaries@.last().feed_title == feed.normalized_title
            && after.feed_summaries@.last().queued == 1
            && after.feed_summaries@.last().downloaded == 0
            && after.feed_summaries@.last().failed == 0
            && after.feed_summaries@.last().discovered == 0
            && after.feed_summaries@.last().skipped_initial == 0
            && after.feed_summaries@.last().deleted_by_retention == 0
            && after.feed_summaries@.last().errors@.len() == 0,
    }
}

/// Queues an episode of `feed` (see `queued_recorded`).
pub fn record_queued(plan: &mut BatchPlan, feed: &FeedSubscription)
    requires
        old(plan).wf(),
        old(plan).summary.queued < usize::MAX,
        forall|k: int| 0 <= k < old(plan).feed_summaries@.len() ==> (#[trigger] old(plan).feed_summaries@[k]).queued < usize::MAX,
    ensures
        final(plan).wf(),
        queued_recorded(*old(plan), *final(plan), *feed),
{
    plan.summary.queued = plan.summary.queued + 1;
    match find_summary(&plan.feed_summaries, feed.id.as_str()) {
        Some(i) => {
            let ghost before = plan.feed_summaries@;
            let mut fs = plan.feed_summaries.remove(i);
            fs.queued = fs.queued + 1;
            plan.feed_summaries.insert(i, fs);
            assert forall|a: int, b: int| 0 <= a < b < plan.feed_summaries@.len() implies #[trigger] plan.feed_summaries@[a].feed_id@ != #[trigger] plan.feed_summaries@[b].feed_id@ by {
                assert(plan.feed_summaries@[a].feed_id == before[a].feed_id);
                assert(plan.feed_summaries@[b].feed_id == before[b].feed_id);
            }
            assert forall|k: int| 0 <= k < before.len() && k != i implies #[trigger] plan.feed_summaries@[k] == before[k] by {}
        },
        None => {
            let mut fs = start_feed_check(feed);
            fs.queued = 1;
            let ghost before = plan.feed_summaries@;
            plan.feed_summaries.push(fs);
            assert(plan.feed_summaries@.drop_last() == before);
            assert forall|a: int, b: int| 0 <= a < b < plan.feed_summaries@.len() implies #[trigger] plan.feed_summaries@[a].feed_id@ != #[trigger] plan.feed_summaries@[b].feed_id@ by {
                if b == before.len() {
                    assert(plan.feed_summaries@[a] == before[a]);
                }
            }
        },
    }
}

/// What counting one download result does to a batch: overall, and in its feed's summary,
/// the other summaries unchanged.
pub open spec fn batch_result_recorded(before: BatchPlan, after: BatchPlan, result: JobResult) -> bool {
    let s = before.feed_summaries@;
    let t = after.feed_summaries@;
    let feed_id = match result {
        Ok(f) => f@,
        Err((f, _)) => f@,
    };
    &&& after.seen == before.seen
    &&& after.summary.queued == before.summary.queued
    &&& after.summary.requested == before.summary.requested
    &&& match result {
        Ok(_) => after.summary.downloaded == before.summary.downloaded + 1
            && after.summary.failed == before.summary.failed
            && after.summary.errors@ == before.summary.errors@,
        Err((_, e)) => after.summary.downloaded == before.summary.downloaded
            && after.summary.failed == before.summary.failed + 1
            && after.summary.errors@ == before.summary.errors@.push(e),
    }
    &&& match summary_index(s, feed_id) {
        Some(i) => {
            &&& t == s.update(i, t[i])
            &&& t[i].feed_id == s[i].feed_id
            &&& t[i].feed_title == s[i].feed_title
            &&& t[i].queued == s[i].queued
            &&& t[i].discovered == s[i].discovered
            &&& t[i].skipped_initial == s[i].skipped_initial
            &&& t[i].deleted_by_retention == s[i].deleted_by_retention
            &&& match result {
                Ok(_) => t[i].downloaded == s[i].downloaded + 1 && t[i].failed == s[i].failed
                    && t[i].errors == s[i].errors,
                Err((_, e)) => t[i].downloaded == s[i].downloaded && t[i].failed == s[i].failed
                    + 1 && t[i].errors@ == s[i].errors@.push(e),
            }
        },
        None => t == s,
    }
}

/// Counts the result of one download of the batch: overall, and in its feed's summary.
pub fn record_batch_result(plan: &mut BatchPlan, result: JobResult)
    requires
        old(plan).wf(),
        old(plan).summary.downloaded < usize::MAX,
        old(plan).summary.failed < usize::MAX,
        forall|k: int| 0 <= k < old(plan).feed_summaries@.len() ==> (#[trigger] old(plan).feed_summaries@[k]).downloaded < usize::MAX && old(plan).feed_summaries@[k].failed < usize::MAX,
    ensures
        final(plan).wf(),
        batch_result_recorded(*old(plan), *final(plan), result),
{
    let ghost before = plan.feed_summaries@;
    match result {
        Ok(feed_id) => {
            plan.summary.downloaded = plan.summary.downloaded + 1;
            if let Some(i) = find_summary(&plan.feed_summaries, feed_id.as_str()) {
                let mut fs = plan.feed_summaries.remove(i);
                fs.downloaded = fs.downloaded + 1;
                plan.feed_summaries.insert(i, fs);
                assert(plan.feed_summaries@ =~= before.update(i as int, plan.feed_summaries@[i as int]));
            }
        },
        Err((feed_id, error)) => {
            plan.summary.failed = plan.summary.failed + 1;
            plan.summary.errors.push(error.clone());
            if let Some(i) = find_summary(&plan.feed_summaries, feed_id.as_str()) {
                let mut fs = plan.feed_summaries.remove(i);
                fs.failed = fs.failed + 1;
                fs.errors.push(error);
                plan.feed_summaries.insert(i, fs);
                assert(plan.feed_summaries@ =~= before.update(i as int, plan.feed_summaries@[i as int]));
            }
        },
    }
    assert forall|a: int, b: int| 0 <= a < b < plan.feed_summaries@.len() implies #[trigger] plan.feed_summaries@[a].feed_id@ != #[trigger] plan.feed_summaries@[b].feed_id@ by {
        assert(plan.feed_summaries@[a].feed_id == before[a].feed_id);
        assert(plan.feed_summaries@[b].feed_id == before[b].feed_id);
    }
}

/// A batch's queued and downloaded counts are the sums of its feed summaries' counts.
pub open spec fn batch_totals(plan: BatchPlan) -> bool {
    &&& plan.summary.queued == count_sum(plan.feed_summaries@, |f: FeedCheckSummary| f.queued as int)
    &&& plan.summary.downloaded == count_sum(
        plan.feed_summaries@,
        |f: FeedCheckSummary| f.downloaded as int,
    )
}

/// Queueing an episode keeps a batch's queued and downloaded counts the sums over its
/// feed summaries.
pub proof fn lemma_queued_keeps_batch_totals(
    before: BatchPlan,
    after: BatchPlan,
    feed: FeedSubscription,
)
    requires
        batch_totals(before),
        queued_recorded(before, after, feed),
    ensures
        batch_totals(after),
{
    let s = before.feed_summaries@;
    let t = after.feed_summaries@;
    match summary_index(s, feed.id@) {
        Some(i) => {
            assert(t =~= s.update(i, t[i]));
            lemma_count_sum_update(s, i, t[i], |f: FeedCheckSummary| f.queued as int);
            lemma_count_sum_update(s, i, t[i], |f: FeedCheckSummary| f.downloaded as int);
        },
        None => {
            assert(t.drop_last() == s);
        },
    }
}

/// Recording a missing episode keeps a batch's totals: it touches neither the counts
/// summed nor the feed summaries.
pub proof fn lemma_missing_keeps_batch_totals(before: BatchPlan, after: BatchPlan)
    requires
        batch_totals(before),
        after.summary.queued == before.summary.queued,
        after.summary.downloaded == before.summary.downloaded,
        after.feed_summaries == before.feed_summaries,
    ensures
        batch_totals(after),
{
}

/// Counting a download result keeps a batch's totals, when its feed has a summary (every
/// job of a batch comes from a queued episode, whose feed has one).
pub proof fn lemma_result_keeps_batch_totals(before: BatchPlan, after: BatchPlan, result: JobResult)
    requires
        batch_totals(before),
        batch_result_recorded(before, after, result),
        summary_index(
            before.feed_summaries@,
            match result {
                Ok(f) => f@,
                Err((f, _)) => f@,
            },
        ) is Some,
    ensures
        batch_totals(after),
{
    let s = before.feed_summaries@;
    let t = after.feed_summaries@;
    let feed_id = match result {
        Ok(f) => f@,
        Err((f, _)) => f@,
    };
    let i = summary_index(s, feed_id)->0;
    lemma_count_sum_update(s, i, t[i], |f: FeedCheckSummary| f.queued as int);
    lemma_count_sum_update(s, i, t[i], |f: FeedCheckSummary| f.downloaded as int);
}

/// A finished batch's queued and downloaded counts are the sums over its feed summaries.
pub open spec fn summary_totals(r: DownloadBatchSummary) -> bool {
    &&& r.queued == count_sum(r.feed_summaries@, |f: FeedCheckSummary| f.queued as int)
    &&& r.downloaded == count_sum(r.feed_summaries@, |f: FeedCheckSummary| f.downloaded as int)
}

/// Ending a batch keeps its totals: ordering the feed summaries by title changes no sum.
pub proof fn lemma_finish_keeps_totals(plan: BatchPlan, r: DownloadBatchSummary)
    requires
        batch_totals(plan),
        r.queued == plan.summary.queued,
        r.downloaded == plan.summary.downloaded,
        r.feed_summaries@.to_multiset() == plan.feed_summaries@.to_multiset(),
    ensures
        summary_totals(r),
{
    lemma_count_sum_permutation(
        plan.feed_summaries@,
        r.feed_summaries@,
        |f: FeedCheckSummary| f.queued as int,
    );
    lemma_count_sum_permutation(
        plan.feed_summaries@,
        r.feed_summaries@,
        |f: FeedCheckSummary| f.downloaded as int,
    );
}

/// Feed summaries in order of title.
pub open spec fn titles_sorted(s: Seq<FeedCheckSummary>) -> bool {
    forall|i: int, j: int| 0 <= i < j < s.len() ==> !text_lt(#[trigger] s[j].feed_title@, #[trigger] s[i].feed_title@)
}

/// The order of `sort_by_title`.
pub open spec fn title_first() -> spec_fn(FeedCheckSummary, FeedCheckSummary) -> bool {
    |a: FeedCheckSummary, b: FeedCheckSummary| text_lt(a.feed_title@, b.feed_title@)
}

proof fn lemma_title_first_strict_weak()
    ensures
        strict_weak(title_first()),
{
    assert forall|a: FeedCheckSummary, b: FeedCheckSummary| #[trigger] title_first()(a, b) implies !title_first()(b, a) by {
        lemma_text_lt_asymmetric(a.feed_title@, b.feed_title@);
    }
    assert forall|a: FeedCheckSummary, b: FeedCheckSummary, c: FeedCheckSummary|
        #![trigger title_first()(b, a), title_first()(c, b)]
        !title_first()(b, a) && !title_first()(c, b) implies !title_first()(c, a) by {
        let (ta, tb, tc) = (a.feed_title@, b.feed_title@, c.feed_title@);
        lemma_text_lt_total(ta, tb);
        lemma_text_lt_total(tb, tc);
        if text_lt(tc, ta) {
            if text_lt(ta, tb) {
                lemma_text_lt_transitive(tc, ta, tb);
            } else if ta == tb {
            } else if text_lt(tb, tc) {
                lemma_text_lt_transitive(tb, tc, ta);
            }
        }
    }
}

/// Orders feed summaries by title, keeping the order of equal titles.
pub fn sort_by_title(v: &mut Vec<FeedCheckSummary>)
    ensures
        final(v)@ == stable_sort(old(v)@, title_first()),
        titles_sorted(final(v)@),
        final(v)@.to_multiset() == old(v)@.to_multiset(),
{
    let ghost unsorted = v@;
    let n = v.len();
    let mut i: usize = 0;
    assert(v@.take(0) =~= stable_sort(unsorted.take(0), title_first()));
    assert(v@.skip(0) =~= unsorted.skip(0));
    while i < n
        invariant
            i <= n == v@.len() == unsorted.len(),
            v@.take(i as int) == stable_sort(unsorted.take(i as int), title_first()),
            v@.skip(i as int) == unsorted.skip(i as int),
        decreases n - i,
    {
        let ghost p = v@.take(i as int);
        let ghost x = unsorted[i as int];
        proof {
            lemma_stable_sort_step(unsorted, i as int, title_first());
            assert(p.take(i as int) =~= p);
            assert(p.skip(i as int) =~= Seq::<FeedCheckSummary>::empty());
            assert(unsorted.skip(i as int) =~= seq![x] + unsorted.skip(i + 1));
            assert(v@ =~= v@.take(i as int) + v@.skip(i as int));
            assert(v@ =~= p.take(i as int) + seq![x] + p.skip(i as int) + unsorted.skip(i + 1));
        }
        let mut j: usize = i;
        while j > 0 && compare_text(v[j].feed_title.as_str(), v[j - 1].feed_title.as_str()) == Order::Less
            invariant
                0 <= j <= i < n == v@.len() == unsorted.len(),
                p.len() == i,
                x == unsorted[i as int],
                v@ == p.take(j as int) + seq![x] + p.skip(j as int) + unsorted.skip(i + 1),
                forall|m: int| j <= m < i ==> title_first()(x, #[trigger] p[m]),
            decreases j,
        {
            assert(v@[j as int] == x);
            assert(v@[j - 1] == p[j - 1]);
            let y = v.remove(j);
            v.insert(j - 1, y);
            assert(v@ =~= p.take(j - 1) + seq![x] + p.skip(j - 1) + unsorted.skip(i + 1));
            j = j - 1;
        }
        proof {
            if j > 0 {
                assert(v@[j as int] == x);
                assert(v@[j - 1] == p[j - 1]);
                assert(p.take(j as int).last() == p[j - 1]);
            }
            lemma_insert_before_tail(p, x, title_first(), j as int);
            assert(stable_insert(p.take(j as int), x, title_first()) == p.take(j as int).push(x));
            assert(v@.take(i + 1) =~= p.take(j as int).push(x) + p.skip(j as int));
            assert(v@.skip(i + 1) =~= unsorted.skip(i + 1));
        }
        i = i + 1;
    }
    proof {
        assert(v@.take(n as int) =~= v@);
        assert(unsorted.take(n as int) =~= unsorted);
        lemma_title_first_strict_weak();
        lemma_stable_sort(unsorted, title_first());
        let r = v@;
        assert forall|a: int, b: int| 0 <= a < b < r.len() implies !text_lt(#[trigger] r[b].feed_title@, #[trigger] r[a].feed_title@) by {
            assert(!title_first()(r[b], r[a]));
        }
    }
}

/// Ends the batch: its summary with the feed summaries ordered by title.
pub fn finish_batch(plan: BatchPlan) -> (r: DownloadBatchSummary)
    ensures
        r.requested == plan.summary.requested,
        r.queued == plan.summary.queued,
        r.downloaded == plan.summary.downloaded,
        r.failed == plan.summary.failed,
        r.errors == plan.summary.errors,
        r.feed_summaries@ == stable_sort(plan.feed_summaries@, title_first()),
        titles_sorted(r.feed_summaries@),
        r.feed_summaries@.to_multiset() == plan.feed_summaries@.to_multiset(),
{
    let mut summaries = plan.feed_summaries;
    sort_by_title(&mut summaries);
    DownloadBatchSummary {
        requested: plan.summary.requested,
        queued: plan.summary.queued,
        downloaded: plan.summary.downloaded,
        failed: plan.summary.failed,
        feed_summaries: summaries,
        errors: plan.summary.errors,
    }
}

/// The result of downloading a single episode: the last feed summary of its batch, or
/// `NotFound(episode_id)` when the batch touched no feed.
pub fn single_download_summary(batch: DownloadBatchSummary, episode_id: &str) -> (r: Result<FeedCheckSummary>)
    ensures
        batch.feed_summaries@.len() > 0 ==> r == Ok::<FeedCheckSummary, PodcastError>(batch.feed_summaries@.last()),
        batch.feed_summaries@.len() == 0 ==> (r matches Err(PodcastError::NotFound(m)) && m@ == episode_id@),
{
    let mut summaries = batch.feed_summaries;
    match summaries.pop() {
        Some(s) => Ok(s),
        None => Err(PodcastError::NotFound(owned(episode_id))),
    }
}

} // verus!

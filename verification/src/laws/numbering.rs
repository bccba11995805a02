//! Every change of the history has a number of its own, whatever is done to it.

use vstd::prelude::*;

use crate::exec;
use crate::history::{CertificateModel, EntryModel, HistoryModel, ProgressModel, PublishedModel};
use crate::history::PageModel;
use crate::history::merge;
use crate::history::page;
use crate::history::publish;
use crate::storage;
use crate::storage::{CandidateModel, PayloadModel};
use crate::store;
use crate::store::StoreModel;
use crate::table;
use crate::text;
use crate::types::{JobModel, LocalTimeModel};

verus! {

/// No number is ahead of the clock, and no two entries have the same.
pub open spec fn numbered(h: HistoryModel) -> bool {
    &&& table::ascending(h.entries)
    &&& forall|key: Seq<char>|
        (#[trigger] table::lookup(h.entries, key)) matches Some(entry) ==> entry.change <= h.clock
    &&& forall|a: Seq<char>, b: Seq<char>|
        a != b && (#[trigger] table::lookup(h.entries, a)) is Some && (#[trigger] table::lookup(h.entries, b)) is Some
            ==> table::lookup(h.entries, a)->0.change != table::lookup(h.entries, b)->0.change
}

/// An entry that is stored under the next number keeps numbers apart.
proof fn lemma_store_next(h: HistoryModel, key: Seq<char>, entry: EntryModel)
    requires
        numbered(h),
        h.clock < u64::MAX,
        entry.change == h.clock + 1,
    ensures
        numbered(HistoryModel { entries: table::stored(h.entries, key, entry), ..publish::ticked(h) }),
{
    let next = table::stored(h.entries, key, entry);
    table::lemma_stored_ascending(h.entries, key, entry);
    assert forall|k: Seq<char>| (#[trigger] table::lookup(next, k)) is Some implies table::lookup(next, k)->0.change <= h.clock
        + 1 by {
        table::lemma_stored_lookup(h.entries, key, entry, k);
        if k != key {
            assert(table::lookup(h.entries, k) == table::lookup(next, k));
        }
    }
    assert forall|a: Seq<char>, b: Seq<char>|
        a != b && (#[trigger] table::lookup(next, a)) is Some && (#[trigger] table::lookup(next, b)) is Some implies table::lookup(
        next,
        a,
    )->0.change != table::lookup(next, b)->0.change by {
        table::lemma_stored_lookup(h.entries, key, entry, a);
        table::lemma_stored_lookup(h.entries, key, entry, b);
        if a != key {
            assert(table::lookup(h.entries, a) == table::lookup(next, a));
        }
        if b != key {
            assert(table::lookup(h.entries, b) == table::lookup(next, b));
        }
    }
}

/// So does one that keeps its number.
proof fn lemma_store_again(h: HistoryModel, key: Seq<char>, entry: EntryModel)
    requires
        numbered(h),
        table::lookup(h.entries, key) matches Some(e) && e.change == entry.change,
    ensures
        numbered(HistoryModel { entries: table::stored(h.entries, key, entry), ..h }),
{
    let next = table::stored(h.entries, key, entry);
    table::lemma_stored_ascending(h.entries, key, entry);
    assert forall|k: Seq<char>| (#[trigger] table::lookup(next, k)) is Some implies table::lookup(next, k)->0.change
        <= h.clock by {
        table::lemma_stored_lookup(h.entries, key, entry, k);
        assert(table::lookup(h.entries, k) is Some);
    }
    assert forall|a: Seq<char>, b: Seq<char>|
        a != b && (#[trigger] table::lookup(next, a)) is Some && (#[trigger] table::lookup(next, b)) is Some implies table::lookup(
        next,
        a,
    )->0.change != table::lookup(next, b)->0.change by {
        table::lemma_stored_lookup(h.entries, key, entry, a);
        table::lemma_stored_lookup(h.entries, key, entry, b);
        assert(table::lookup(h.entries, a) is Some && table::lookup(h.entries, b) is Some);
    }
}

/// Numbers stay apart when the clock moves on alone.
proof fn lemma_tick(h: HistoryModel)
    requires
        numbered(h),
        h.clock < u64::MAX,
    ensures
        numbered(publish::ticked(h)),
{
    assert forall|k: Seq<char>| (#[trigger] table::lookup(h.entries, k)) is Some implies table::lookup(h.entries, k)->0.change
        <= h.clock + 1 by {
        assert(table::lookup(h.entries, k) == table::lookup(h.entries, k));
    }
}

/// Taking in a record keeps numbers apart.
pub proof fn law_ingest_numbered(s: StoreModel, p: PublishedModel)
    requires
        numbered(s.history),
    ensures
        numbered(merge::ingested(s, p).0.history),
{
    let (next, step) = merge::ingested(s, p);
    if step == Ok::<bool, crate::error::ErrorModel>(true) {
        let key = crate::history::wire::invocation_key(p.record.certificate);
        let entry = choose|entry: EntryModel|
            entry.change == s.history.clock + 1 && next.history == (HistoryModel {
                entries: #[trigger] table::stored(s.history.entries, key, entry),
                ..publish::ticked(s.history)
            });
        lemma_store_next(s.history, key, entry);
    }
}

/// Taking in a page keeps numbers apart.
pub proof fn law_page_numbered(s: StoreModel, peer: Seq<char>, progress: ProgressModel, page: PageModel)
    requires
        numbered(s.history),
    ensures
        numbered(page::page_merged(s, peer, progress, page).0.history),
{
    lemma_rows_numbered(s, page.entries, 0, !page.reset && progress.unknown_authors);
}

proof fn lemma_rows_numbered(s: StoreModel, entries: Seq<PublishedModel>, i: int, unknown: bool)
    requires
        numbered(s.history),
    ensures
        numbered(page::rows_merged(s, entries, i, unknown).0.history),
    decreases entries.len() - i,
{
    if i < entries.len() {
        if !page::authors_are_known(s, entries[i].record.certificate) {
            lemma_rows_numbered(s, entries, i + 1, true);
        } else {
            law_ingest_numbered(s, entries[i]);
            let (next, step) = merge::ingested(s, entries[i]);
            if step is Ok {
                lemma_rows_numbered(next, entries, i + 1, unknown);
            }
        }
    }
}

/// So does a runner's answer.
pub proof fn law_answer_numbered(s: StoreModel, peer: Seq<char>, p: PublishedModel)
    requires
        numbered(s.history),
    ensures
        numbered(merge::answered(s, peer, p).0.history),
{
    law_ingest_numbered(s, p);
}

proof fn lemma_admit_numbered(s: StoreModel, c: CertificateModel)
    requires
        numbered(s.history),
    ensures
        numbered(merge::admitted(s, c).0.history),
{
    let key = crate::history::wire::invocation_key(c);
    if !table::holds(s.history.entries, key) && s.history.clock < u64::MAX {
        lemma_store_next(
            s.history,
            key,
            crate::history::publish::bare_entry(c, (s.history.clock + 1) as u64),
        );
    }
}

/// So does a submitted command.
pub proof fn law_submit_numbered(
    s: StoreModel,
    free: bool,
    from: Seq<char>,
    argv: Seq<Seq<char>>,
    id: Seq<char>,
    certificate: Option<CertificateModel>,
    now: LocalTimeModel,
    fresh_id: Seq<char>,
)
    requires
        numbered(s.history),
    ensures
        numbered(exec::submitted(s, free, from, argv, id, certificate, now, fresh_id).0.history),
{
    if let Some(c) = certificate {
        lemma_admit_numbered(s, c);
    }
}

proof fn lemma_bound_numbered(s: StoreModel, job: JobModel, known: bool)
    requires
        numbered(s.history),
    ensures
        numbered(publish::bound(s, job, known).0.history),
{
    let (next, step) = publish::bound(s, job, known);
    if next.history != s.history {
        let key = step->Ok_0;
        let entry = choose|entry: EntryModel|
            entry.change == s.history.clock + 1 && next.history == (HistoryModel {
                entries: #[trigger] table::stored(s.history.entries, key, entry),
                ..publish::ticked(s.history)
            });
        lemma_store_next(s.history, key, entry);
    }
}

proof fn lemma_spoken_numbered(s: StoreModel, job: JobModel, key: Seq<char>)
    requires
        numbered(s.history),
    ensures
        numbered(publish::spoken(s, job, key).0.history),
{
    let (next, step) = publish::spoken(s, job, key);
    if next.history != s.history {
        let entry = choose|entry: EntryModel|
            entry.change == s.history.clock + 1 && next.history == (HistoryModel {
                entries: #[trigger] table::stored(s.history.entries, key, entry),
                ..publish::ticked(s.history)
            });
        lemma_store_next(s.history, key, entry);
    }
}

proof fn lemma_published_numbered(
    s: StoreModel,
    jobs: Seq<JobModel>,
    i: int,
    legacy: bool,
    earlier: Seq<JobModel>,
)
    requires
        numbered(s.history),
    ensures
        numbered(publish::published_from(s, jobs, i, legacy, earlier).0.history),
    decreases jobs.len() - i,
{
    if i < jobs.len() {
        if !legacy && !publish::job_changed(earlier, jobs[i]) {
            lemma_published_numbered(s, jobs, i + 1, legacy, earlier);
        } else {
            let known = publish::last_at(earlier, jobs[i].id) is Some;
            reveal(publish::published_job);
            lemma_bound_numbered(s, jobs[i], known);
            let (bound_store, key) = publish::bound(s, jobs[i], known);
            if key is Ok {
                lemma_spoken_numbered(bound_store, jobs[i], key->Ok_0);
            }
            let (next, step) = publish::published_job(s, jobs[i], known);
            if step is Ok {
                lemma_published_numbered(next, jobs, i + 1, legacy, earlier);
            }
        }
    }
}

/// Rows with the same keys rank every key alike.
proof fn lemma_unloaded_lookup(
    entries: Seq<(Seq<char>, EntryModel)>,
    pruned: Seq<(Seq<char>, ())>,
    key: Seq<char>,
)
    ensures
        table::lookup(merge::unloaded(entries, pruned), key) is Some == table::lookup(entries, key) is Some,
        table::lookup(entries, key) matches Some(e) ==> table::lookup(merge::unloaded(entries, pruned), key)->0.change
            == e.change,
{
    let next = merge::unloaded(entries, pruned);
    table::lemma_rank_bounds(entries, key);
    let r = table::rank(entries, key);
    assert forall|i: int| 0 <= i < r implies text::text_lt(#[trigger] next[i].0, key) by {
        assert(next[i].0 == entries[i].0);
    }
    table::lemma_rank_is(next, key, r);
}

proof fn lemma_unloaded_numbered(h: HistoryModel, pruned: Seq<(Seq<char>, ())>)
    requires
        numbered(h),
    ensures
        numbered(HistoryModel { entries: merge::unloaded(h.entries, pruned), ..h }),
{
    let next = merge::unloaded(h.entries, pruned);
    assert forall|i: int, j: int| 0 <= i < j < next.len() implies text::text_lt(
        #[trigger] next[i].0,
        #[trigger] next[j].0,
    ) by {
        assert(text::text_lt(h.entries[i].0, h.entries[j].0));
    }
    assert forall|k: Seq<char>| (#[trigger] table::lookup(next, k)) is Some implies table::lookup(next, k)->0.change
        <= h.clock by {
        lemma_unloaded_lookup(h.entries, pruned, k);
        assert(table::lookup(h.entries, k) is Some);
    }
    assert forall|a: Seq<char>, b: Seq<char>|
        a != b && (#[trigger] table::lookup(next, a)) is Some && (#[trigger] table::lookup(next, b)) is Some implies table::lookup(
        next,
        a,
    )->0.change != table::lookup(next, b)->0.change by {
        lemma_unloaded_lookup(h.entries, pruned, a);
        lemma_unloaded_lookup(h.entries, pruned, b);
        assert(table::lookup(h.entries, a) is Some && table::lookup(h.entries, b) is Some);
    }
}

proof fn lemma_normalized_numbered(s: StoreModel, i: int)
    requires
        numbered(s.history),
    ensures
        numbered(merge::normalized_from(s, i).history),
    decreases s.jobs.len() - i,
{
    if i < s.jobs.len() {
        let next = merge::normalized_job(s, i);
        if let Some(key) = table::lookup(s.job_certificates, s.jobs[i].id) {
            if let Some(entry) = table::lookup(s.history.entries, key) {
                lemma_store_again(s.history, key, EntryModel { output: None, ..entry });
            }
        }
        assert(numbered(next.history));
        if next.jobs.len() == s.jobs.len() {
            lemma_normalized_numbered(next, i + 1);
        }
    }
}

proof fn lemma_removed_numbered(s: StoreModel, payload: PayloadModel)
    requires
        numbered(s.history),
    ensures
        numbered(storage::removed(s, payload).0.history),
{
    let (next, step) = crate::storage::cleared(s, payload);
    if step is Ok && s.history.clock < u64::MAX {
        let key = step->Ok_0;
        lemma_tick(s.history);
        if let Some(entry) = table::lookup(s.history.entries, key) {
            lemma_store_next(
                s.history,
                key,
                EntryModel { output: None, change: (s.history.clock + 1) as u64, ..entry },
            );
        }
        assert(storage::removed(s, payload).0.history.clock == publish::ticked(s.history).clock);
    }
}

proof fn lemma_until_fit_numbered(s: StoreModel, list: Seq<CandidateModel>, i: int)
    requires
        numbered(s.history),
    ensures
        numbered(storage::removed_until_fit(s, list, i).0.history),
    decreases list.len() - i,
{
    if i < list.len() {
        lemma_removed_numbered(s, list[i].payload);
        let (next, step) = storage::removed(s, list[i].payload);
        if step is Ok {
            lemma_until_fit_numbered(next, list, i + 1);
        }
    }
}

/// Pruning keeps numbers apart.
pub proof fn law_prune_numbered(s: StoreModel, list: Seq<CandidateModel>, i: int, n: int)
    requires
        numbered(s.history),
    ensures
        numbered(storage::removed_between(s, list, i, n).0.history),
    decreases n - i,
{
    if i < n {
        lemma_removed_numbered(s, list[i].payload);
        let (next, step) = storage::removed(s, list[i].payload);
        if step is Ok {
            law_prune_numbered(next, list, i + 1, n);
        }
    }
}

/// Whatever is saved in place of a state, its history numbers stay apart.
pub proof fn law_update_numbered(s: StoreModel, next: StoreModel, fresh_epoch: Seq<char>)
    requires
        numbered(next.history),
    ensures
        store::replacement(s, next, fresh_epoch) matches Ok(saved) ==> numbered(saved.history),
{
    let ready = publish::readied(next, fresh_epoch);
    assert(numbered(ready.history));
    lemma_published_numbered(
        ready,
        next.jobs,
        0,
        !next.history.initialized,
        publish::earlier_jobs(Some(s)),
    );
    let (published, step) = publish::refreshed(next, Some(s), fresh_epoch);
    if step is Ok {
        assert(numbered(published.history));
        lemma_unloaded_numbered(published.history, published.history_pruned);
        lemma_normalized_numbered(
            StoreModel {
                history: HistoryModel {
                    entries: merge::unloaded(published.history.entries, published.history_pruned),
                    ..published.history
                },
                ..published
            },
            0,
        );
        let clean = merge::normalized(published);
        lemma_until_fit_numbered(clean, storage::removable(clean), 0);
    }
}

} // verus!

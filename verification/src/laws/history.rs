//! Shared history: a replica that grants nothing and starts nothing, in which
//! facts only move forward and pages lose nothing.

use vstd::prelude::*;

use crate::error::{ErrorModel, Outcome};
use crate::history::{
    CertificateModel, EntryModel, FactModel, HistoryModel, InvocationModel, PageModel, ProgressModel, PublishedModel,
    RecordModel, SignedFactModel,
};
use crate::history::merge;
use crate::history::page;
use crate::history::page::PAGE_ROWS;
use crate::history::publish;
use crate::history::wire;
use crate::job;
use crate::laws::numbering;
use crate::order;
use crate::search;
use crate::store::StoreModel;
use crate::table;
use crate::text;

verus! {

/// Receiving history changes the history and nothing else: no grant, no request,
/// no pairing, and no job that could run.
pub proof fn law_ingest_is_read_only(s: StoreModel, p: PublishedModel)
    ensures
        merge::ingested(s, p).0 == (StoreModel { history: merge::ingested(s, p).0.history, ..s }),
        merge::ingested(s, p).0.history.clock >= s.history.clock,
        merge::ingested(s, p).1 is Err ==> merge::ingested(s, p).0 == s,
{
}

/// Nor does a whole page.
pub proof fn law_page_is_read_only(
    s: StoreModel,
    peer: Seq<char>,
    progress: ProgressModel,
    page: PageModel,
)
    ensures
        page::page_merged(s, peer, progress, page).0 == (StoreModel {
            history: page::page_merged(s, peer, progress, page).0.history,
            ..s
        }),
{
    lemma_rows_read_only(s, page.entries, 0, !page.reset && progress.unknown_authors);
}

proof fn lemma_rows_read_only(s: StoreModel, entries: Seq<PublishedModel>, i: int, unknown: bool)
    ensures
        page::rows_merged(s, entries, i, unknown).0 == (StoreModel {
            history: page::rows_merged(s, entries, i, unknown).0.history,
            ..s
        }),
    decreases entries.len() - i,
{
    if i < entries.len() {
        if !page::authors_are_known(s, entries[i].record.certificate) {
            lemma_rows_read_only(s, entries, i + 1, true);
        } else {
            let (next, step) = merge::ingested(s, entries[i]);
            if step is Ok {
                lemma_rows_read_only(next, entries, i + 1, unknown);
            }
        }
    }
}

/// A fact is replaced only by one with a later revision, and a terminal fact by
/// none. Meeting the same fact again changes nothing.
pub proof fn law_facts_move_forward(
    existing: Option<SignedFactModel>,
    incoming: Option<SignedFactModel>,
)
    ensures
        merge::merged_fact(existing, incoming) matches Ok((fact, changed)) ==> {
            &&& !changed ==> fact == existing
            &&& changed ==> fact == incoming && incoming is Some
            &&& existing is Some ==> fact is Some && fact->0.fact.revision >= existing->0.fact.revision
            &&& existing is Some && job::terminal(existing->0.fact.status) ==> fact == existing
            &&& existing is Some && changed ==> fact->0.fact.revision > existing->0.fact.revision
            &&& merge::merged_fact(fact, incoming) == Ok::<(Option<SignedFactModel>, bool), ErrorModel>(
                (fact, false),
            )
        },
{
}

/// Taking in a record a second time changes nothing.
pub proof fn law_ingest_once(s: StoreModel, p: PublishedModel)
    requires
        table::ascending(s.history.entries),
        merge::ingested(s, p).1 is Ok,
    ensures
        merge::ingested(merge::ingested(s, p).0, p) == (merge::ingested(s, p).0, Ok::<bool, ErrorModel>(false)),
{
    let (next, step) = merge::ingested(s, p);
    if step == Ok::<bool, ErrorModel>(true) {
        let key = wire::invocation_key(p.record.certificate);
        let base = crate::history::merge::base_entry(s, p.record.certificate);
        let record = merge::merged_record(base.record, p.record)->Ok_0.0;
        let output = merge::merged_output(s, record, base.output, p.output).0;
        let entry = EntryModel { record, change: (s.history.clock + 1) as u64, output };
        table::lemma_stored_lookup(s.history.entries, key, entry, key);
        assert(table::lookup(next.history.entries, key) == Some(entry));
        assert(wire::validate_record_outcome(next, p.record) == wire::validate_record_outcome(s, p.record));
        law_facts_move_forward(base.record.origin, p.record.origin);
        law_facts_move_forward(base.record.runner, p.record.runner);
        assert(merge::merged_record(record, p.record) == Ok::<(RecordModel, bool), ErrorModel>(
            (record, false),
        ));
        if let Some(fact) = record.selected() {
            assert(crate::history::merge::held_locally(next, record.certificate, fact)
                == crate::history::merge::held_locally(s, record.certificate, fact)) by {
                assert forall|i: int| 0 <= i < s.jobs.len() implies #[trigger] next.jobs[i]
                    == s.jobs[i] by {}
                if crate::history::merge::held_locally(s, record.certificate, fact) {
                    let i = choose|i: int|
                        0 <= i < s.jobs.len() && crate::history::merge::owns_output(
                            s,
                            record.certificate,
                            wire::invocation_key(record.certificate),
                            #[trigger] s.jobs[i],
                        ) && crate::history::merge::job_captured(s.jobs[i], fact);
                    assert(crate::history::merge::owns_output(
                        next,
                        record.certificate,
                        wire::invocation_key(record.certificate),
                        next.jobs[i],
                    ));
                }
                if crate::history::merge::held_locally(next, record.certificate, fact) {
                    let i = choose|i: int|
                        0 <= i < next.jobs.len() && crate::history::merge::owns_output(
                            next,
                            record.certificate,
                            wire::invocation_key(record.certificate),
                            #[trigger] next.jobs[i],
                        ) && crate::history::merge::job_captured(next.jobs[i], fact);
                    assert(crate::history::merge::owns_output(
                        s,
                        record.certificate,
                        wire::invocation_key(record.certificate),
                        s.jobs[i],
                    ));
                }
            }
        }
        assert(merge::merged_output(next, record, output, p.output) == (output, false));
    }
}

/// Two machines that know the same key of whoever a certificate rests on.
pub open spec fn same_keys(s: StoreModel, t: StoreModel, c: CertificateModel) -> bool {
    match c.invocation.legacy_observer {
        Some(observer) => wire::known_key_outcome(s, observer) == wire::known_key_outcome(t, observer),
        None => wire::known_key_outcome(s, c.invocation.from) == wire::known_key_outcome(
            t,
            c.invocation.from,
        ) && wire::known_key_outcome(s, c.invocation.body) == wire::known_key_outcome(
            t,
            c.invocation.body,
        ),
    }
}

/// Signatures survive relaying: a record is judged alike by everyone who knows
/// the same keys, whoever passed it on.
pub proof fn law_relayed_record_is_judged_alike(s: StoreModel, t: StoreModel, record: RecordModel)
    requires
        same_keys(s, t, record.certificate),
    ensures
        wire::validate_record_outcome(s, record) == wire::validate_record_outcome(t, record),
{
}

/// What one machine holds, another that knows the same keys takes, and keeps
/// word for word, however far it was relayed.
pub proof fn law_published_is_taken(s: StoreModel, t: StoreModel, entry: EntryModel)
    requires
        wire::validate_record_outcome(s, entry.record) is Ok,
        same_keys(s, t, entry.record.certificate),
        table::ascending(t.history.entries),
        t.history.clock < u64::MAX,
        table::lookup(t.history.entries, wire::invocation_key(entry.record.certificate)) is None,
    ensures
        merge::ingested(t, merge::exported(s, entry)).1 == Ok::<bool, ErrorModel>(true),
        table::lookup(
            merge::ingested(t, merge::exported(s, entry)).0.history.entries,
            wire::invocation_key(entry.record.certificate),
        ) matches Some(kept) && kept.record == entry.record,
{
    law_relayed_record_is_judged_alike(s, t, entry.record);
    let p = merge::exported(s, entry);
    let key = wire::invocation_key(entry.record.certificate);
    let base = merge::base_entry(t, entry.record.certificate);
    assert(merge::offered_outcome(p) is Ok);
    assert(merge::merged_record(base.record, p.record) is Ok);
    let record = merge::merged_record(base.record, p.record)->Ok_0.0;
    assert(record == entry.record);
    let output = merge::merged_output(t, record, base.output, p.output).0;
    table::lemma_stored_lookup(
        t.history.entries,
        key,
        EntryModel { record, change: (t.history.clock + 1) as u64, output },
        key,
    );
}

/// Every entry stays valid and under its own invocation when a record comes in.
pub proof fn law_ingest_keeps_valid(s: StoreModel, p: PublishedModel)
    requires
        table::ascending(s.history.entries),
        publish::held_valid(s),
    ensures
        table::ascending(merge::ingested(s, p).0.history.entries),
        publish::held_valid(merge::ingested(s, p).0),
{
    let (next, step) = merge::ingested(s, p);
    if step == Ok::<bool, ErrorModel>(true) {
        let key = wire::invocation_key(p.record.certificate);
        let base = merge::base_entry(s, p.record.certificate);
        let record = merge::merged_record(base.record, p.record)->Ok_0.0;
        let output = merge::merged_output(s, record, base.output, p.output).0;
        let entry = EntryModel { record, change: (s.history.clock + 1) as u64, output };
        table::lemma_stored_ascending(s.history.entries, key, entry);
        if table::lookup(s.history.entries, key) is Some {
            assert(publish::entry_valid(s, key, base));
        }
        assert(wire::validate_record_outcome(s, record) is Ok);
        assert forall|k: Seq<char>| (#[trigger] table::lookup(next.history.entries, k)) is Some implies publish::entry_valid(
            next,
            k,
            table::lookup(next.history.entries, k)->0,
        ) by {
            table::lemma_stored_lookup(s.history.entries, key, entry, k);
            let kept = table::lookup(next.history.entries, k)->0;
            law_relayed_record_is_judged_alike(s, next, kept.record);
            if k != key {
                assert(table::lookup(s.history.entries, k) is Some);
            }
        }
    }
}

proof fn lemma_rows_keep_valid(s: StoreModel, entries: Seq<PublishedModel>, i: int, unknown: bool)
    requires
        table::ascending(s.history.entries),
        publish::held_valid(s),
    ensures
        publish::held_valid(page::rows_merged(s, entries, i, unknown).0),
    decreases entries.len() - i,
{
    if i < entries.len() {
        if !page::authors_are_known(s, entries[i].record.certificate) {
            lemma_rows_keep_valid(s, entries, i + 1, true);
        } else {
            let (next, step) = merge::ingested(s, entries[i]);
            law_ingest_keeps_valid(s, entries[i]);
            if step is Ok {
                lemma_rows_keep_valid(next, entries, i + 1, unknown);
            }
        }
    }
}

/// Or a whole page.
pub proof fn law_page_keeps_valid(
    s: StoreModel,
    peer: Seq<char>,
    progress: ProgressModel,
    page: PageModel,
)
    requires
        table::ascending(s.history.entries),
        publish::held_valid(s),
    ensures
        publish::held_valid(page::page_merged(s, peer, progress, page).0),
{
    let unknown = !page.reset && progress.unknown_authors;
    let rows = page::rows_merged(s, page.entries, 0, unknown).0;
    let next = page::page_merged(s, peer, progress, page).0;
    lemma_rows_keep_valid(s, page.entries, 0, unknown);
    lemma_rows_read_only(s, page.entries, 0, unknown);
    assert forall|k: Seq<char>| (#[trigger] table::lookup(next.history.entries, k)) is Some implies publish::entry_valid(
        next,
        k,
        table::lookup(next.history.entries, k)->0,
    ) by {
        assert(table::lookup(rows.history.entries, k) is Some);
        law_relayed_record_is_judged_alike(rows, next, table::lookup(next.history.entries, k)->0.record);
    }
}

/// Changes with numbers of their own.
pub open spec fn apart(entries: Seq<EntryModel>) -> bool {
    forall|i: int, j: int|
        0 <= i < entries.len() && 0 <= j < entries.len() && i != j ==> (#[trigger] entries[i]).change
            != (#[trigger] entries[j]).change
}

proof fn lemma_values_apart(h: HistoryModel)
    requires
        numbering::numbered(h),
    ensures
        apart(page::values(h.entries)),
        forall|i: int|
            0 <= i < page::values(h.entries).len() ==> (#[trigger] page::values(h.entries)[i]).change <= h.clock,
{
    let all = page::values(h.entries);
    assert forall|i: int| 0 <= i < all.len() implies (#[trigger] all[i]).change <= h.clock by {
        table::lemma_holds_at(h.entries, h.entries[i].0, i);
    }
    assert forall|i: int, j: int|
        0 <= i < all.len() && 0 <= j < all.len() && i != j implies (#[trigger] all[i]).change != (
    #[trigger] all[j]).change by {
        table::lemma_holds_at(h.entries, h.entries[i].0, i);
        table::lemma_holds_at(h.entries, h.entries[j].0, j);
        let a = h.entries[i].0;
        let b = h.entries[j].0;
        text::lemma_text_lt_order(a, b, a);
        if i < j {
            assert(text::text_lt(h.entries[i].0, h.entries[j].0));
        } else {
            assert(text::text_lt(h.entries[j].0, h.entries[i].0));
        }
        if a == b {
            text::lemma_text_lt_order(a, a, a);
        }
        assert(table::lookup(h.entries, a) is Some && table::lookup(h.entries, b) is Some);
    }
}

proof fn lemma_kept_apart(s: Seq<EntryModel>, test: spec_fn(EntryModel) -> bool)
    requires
        apart(s),
    ensures
        apart(search::kept(s, test)),
    decreases s.len(),
{
    if s.len() > 0 {
        let head = s.drop_last();
        assert forall|i: int, j: int|
            0 <= i < head.len() && 0 <= j < head.len() && i != j implies (#[trigger] head[i]).change
            != (#[trigger] head[j]).change by {
            assert(s[i].change != s[j].change);
        }
        lemma_kept_apart(head, test);
        search::lemma_kept(head, test);
        let rest = search::kept(head, test);
        if test(s.last()) {
            let all = rest.push(s.last());
            assert forall|i: int, j: int|
                0 <= i < all.len() && 0 <= j < all.len() && i != j implies (#[trigger] all[i]).change
                != (#[trigger] all[j]).change by {
                if i < rest.len() && j < rest.len() {
                    assert(rest[i].change != rest[j].change);
                } else {
                    let k = if i < rest.len() {
                        i
                    } else {
                        j
                    };
                    let at = choose|at: int| 0 <= at < head.len() && head[at] == rest[k];
                    assert(s[at].change != s[s.len() - 1].change);
                }
            }
        }
    }
}

/// The rows of a scan: exactly the entries in its range, each later than the last.
proof fn lemma_scan(s: StoreModel, after: u64, high: u64)
    requires
        numbering::numbered(s.history),
    ensures
        forall|i: int, j: int|
            0 <= i < j < page::scan(s, after, high).len() ==> (#[trigger] page::scan(s, after, high)[i]).change < (
            #[trigger] page::scan(s, after, high)[j]).change,
        forall|i: int|
            0 <= i < page::scan(s, after, high).len() ==> after < (#[trigger] page::scan(s, after, high)[i]).change
                <= high,
        forall|k: int|
            0 <= k < s.history.entries.len() && after < (
            #[trigger] s.history.entries[k]).1.change <= high ==> page::scan(s, after, high).contains(
                s.history.entries[k].1,
            ),
        forall|i: int|
            0 <= i < page::scan(s, after, high).len() ==> page::values(s.history.entries).contains(
                #[trigger] page::scan(s, after, high)[i],
            ),
{
    let all = page::values(s.history.entries);
    let test = page::changed_between(after, high);
    let some = search::kept(all, test);
    let rows = page::scan(s, after, high);
    lemma_values_apart(s.history);
    lemma_kept_apart(all, test);
    search::lemma_kept(all, test);
    assert(order::strict_weak(page::by_change()));
    order::lemma_sorted(some, page::by_change());
    assert(some.no_duplicates()) by {
        assert forall|i: int, j: int|
            0 <= i < some.len() && 0 <= j < some.len() && i != j implies some[i] != some[j] by {
            assert(some[i].change != some[j].change);
        }
    }
    some.lemma_multiset_has_no_duplicates();
    rows.lemma_multiset_has_no_duplicates_conv();
    assert forall|e: EntryModel| rows.contains(e) <==> some.contains(e) by {
        vstd::seq_lib::to_multiset_contains(rows, e);
        vstd::seq_lib::to_multiset_contains(some, e);
    }
    assert forall|i: int| 0 <= i < rows.len() implies after < (#[trigger] rows[i]).change
        <= high by {
        assert(rows.contains(rows[i]));
        let at = choose|at: int| 0 <= at < some.len() && some[at] == rows[i];
        assert(test(some[at]));
    }
    assert forall|i: int| 0 <= i < rows.len() implies all.contains(#[trigger] rows[i]) by {
        assert(rows.contains(rows[i]));
        let at = choose|at: int| 0 <= at < some.len() && some[at] == rows[i];
        assert(all.contains(some[at]));
    }
    assert forall|i: int, j: int| 0 <= i < j < rows.len() implies (#[trigger] rows[i]).change < (
    #[trigger] rows[j]).change by {
        assert(!page::by_change()(rows[j], rows[i]));
        assert(rows.contains(rows[i]) && rows.contains(rows[j]));
        let a = choose|a: int| 0 <= a < some.len() && some[a] == rows[i];
        let b = choose|b: int| 0 <= b < some.len() && some[b] == rows[j];
        if rows[i].change == rows[j].change {
            if a != b {
                assert(some[a].change != some[b].change);
            }
            assert(rows[i] == rows[j]);
        }
    }
    assert forall|k: int|
        0 <= k < s.history.entries.len() && after < (#[trigger] s.history.entries[k]).1.change
            <= high implies rows.contains(s.history.entries[k].1) by {
        assert(all[k] == s.history.entries[k].1);
        assert(test(all[k]));
        assert(some.contains(all[k]));
    }
}

proof fn lemma_fit_bounds(s: StoreModel, rows: Seq<EntryModel>, i: int, size: nat)
    requires
        0 <= i <= PAGE_ROWS,
        i <= rows.len(),
    ensures
        page::rows_that_fit(s, rows, i, size) matches Ok(n) ==> i <= n <= PAGE_ROWS && n <= rows.len(),
        page::rows_that_fit(s, rows, i, size) matches Ok(n) ==> (i == 0 && size == 0 && rows.len() > 0
            ==> n > 0),
    decreases rows.len() - i,
{
    if i < rows.len() && i < PAGE_ROWS {
        let bytes = crate::history::page::published_size(merge::exported(s, rows[i]));
        lemma_fit_bounds(s, rows, i + 1, size + bytes);
    }
}

proof fn lemma_ascends(entries: Seq<PublishedModel>, i: int, previous: u64, next: u64)
    requires
        0 <= i <= entries.len(),
        i < entries.len() ==> previous < entries[i].change,
        forall|a: int, b: int|
            0 <= a < b < entries.len() ==> (#[trigger] entries[a]).change < (
            #[trigger] entries[b]).change,
        forall|a: int| 0 <= a < entries.len() ==> (#[trigger] entries[a]).change <= next,
    ensures
        page::ascends(entries, i, previous, next),
    decreases entries.len() - i,
{
    if i < entries.len() {
        lemma_ascends(entries, i + 1, entries[i].change, next);
    }
}

/// A page that one machine gives out is one that another machine takes: within
/// its bounds, in order, and going on from where the scan stood.
pub proof fn law_page_is_accepted(s: StoreModel, progress: ProgressModel, high: Option<u64>)
    requires
        numbering::numbered(s.history),
        s.history.epoch.len() > 0,
    ensures
        page::page_outcome(s, progress.epoch, progress.cursor, high) matches Ok(page) ==> page::page_check(
            progress,
            page,
        ) is Ok,
{
    if let Ok(page) = page::page_outcome(s, progress.epoch, progress.cursor, high) {
        let from = if page.reset {
            0u64
        } else {
            progress.cursor
        };
        let rows = page::scan(s, from, page.high);
        lemma_scan(s, from, page.high);
        lemma_fit_bounds(s, rows, 0, 0);
        let count = page::rows_that_fit(s, rows, 0, 0)->Ok_0;
        assert(page.entries.len() == count);
        assert forall|a: int, b: int| 0 <= a < b < page.entries.len() implies (
        #[trigger] page.entries[a]).change < (#[trigger] page.entries[b]).change by {
            assert(rows[a].change < rows[b].change);
        }
        assert forall|a: int| 0 <= a < page.entries.len() implies (
        #[trigger] page.entries[a]).change <= page.next by {
            if count < rows.len() && a < count - 1 {
                assert(rows[a].change < rows[count - 1].change);
            }
        }
        lemma_ascends(page.entries, 0, from, page.next);
    }
}

/// A page leaves nothing out: every change after the cursor and up to where the
/// page ends is in it, and a complete page ends at the boundary of the scan.
pub proof fn law_page_is_complete(s: StoreModel, progress: ProgressModel, high: Option<u64>, k: int)
    requires
        numbering::numbered(s.history),
        0 <= k < s.history.entries.len(),
    ensures
        page::page_outcome(s, progress.epoch, progress.cursor, high) matches Ok(page) ==> {
            &&& (page.reset || progress.cursor < s.history.entries[k].1.change)
                && 0 < s.history.entries[k].1.change <= page.next ==> page.entries.contains(
                merge::exported(s, s.history.entries[k].1),
            )
            &&& page.complete ==> page.next == page.high
            &&& !page.complete ==> page.entries.len() > 0
        },
{
    if let Ok(page) = page::page_outcome(s, progress.epoch, progress.cursor, high) {
        let from = if page.reset {
            0u64
        } else {
            progress.cursor
        };
        let rows = page::scan(s, from, page.high);
        lemma_scan(s, from, page.high);
        lemma_fit_bounds(s, rows, 0, 0);
        let count = page::rows_that_fit(s, rows, 0, 0)->Ok_0;
        let entry = s.history.entries[k].1;
        if from < entry.change && entry.change <= page.next {
            if count < rows.len() && count > 0 {
                assert(rows[count - 1].change <= page.high);
            }
            assert(entry.change <= page.high);
            assert(rows.contains(entry));
            let at = choose|at: int| 0 <= at < rows.len() && rows[at] == entry;
            if at >= count {
                assert(rows[count - 1].change < rows[at].change);
            }
            assert(page.entries[at] == merge::exported(s, entry));
        }
    }
}

/// Later changes come later.
pub open spec fn climbing(rows: Seq<EntryModel>) -> bool {
    forall|i: int, j: int|
        0 <= i < j < rows.len() ==> (#[trigger] rows[i]).change < (#[trigger] rows[j]).change
}

proof fn lemma_climbing_same(a: Seq<EntryModel>, b: Seq<EntryModel>)
    requires
        climbing(a),
        climbing(b),
        forall|e: EntryModel| a.contains(e) <==> b.contains(e),
    ensures
        a == b,
    decreases a.len(),
{
    if a.len() == 0 {
        if b.len() > 0 {
            assert(b.contains(b[0]));
            assert(a.contains(b[0]));
        }
        assert(a =~= b);
    } else {
        assert(a.contains(a.last()));
        assert(b.contains(a.last()));
        let j = choose|j: int| 0 <= j < b.len() && b[j] == a.last();
        assert(b.contains(b.last()));
        assert(a.contains(b.last()));
        let i = choose|i: int| 0 <= i < a.len() && a[i] == b.last();
        if i < a.len() - 1 {
            assert(a[i].change < a[a.len() - 1].change);
        }
        if j < b.len() - 1 {
            assert(b[j].change < b[b.len() - 1].change);
        }
        assert(a.last() == b.last());
        let x = a.drop_last();
        let y = b.drop_last();
        assert forall|e: EntryModel| x.contains(e) implies y.contains(e) by {
            let k = choose|k: int| 0 <= k < x.len() && x[k] == e;
            assert(a[k] == e && a[k].change < a[a.len() - 1].change);
            assert(a.contains(e));
            let m = choose|m: int| 0 <= m < b.len() && b[m] == e;
            assert(y[m] == e);
        }
        assert forall|e: EntryModel| y.contains(e) implies x.contains(e) by {
            let k = choose|k: int| 0 <= k < y.len() && y[k] == e;
            assert(b[k] == e && b[k].change < b[b.len() - 1].change);
            assert(b.contains(e));
            let m = choose|m: int| 0 <= m < a.len() && a[m] == e;
            assert(x[m] == e);
        }
        assert forall|p: int, q: int| 0 <= p < q < x.len() implies (#[trigger] x[p]).change < (
        #[trigger] x[q]).change by {
            assert(a[p].change < a[q].change);
        }
        assert forall|p: int, q: int| 0 <= p < q < y.len() implies (#[trigger] y[p]).change < (
        #[trigger] y[q]).change by {
            assert(b[p].change < b[q].change);
        }
        lemma_climbing_same(x, y);
        assert(a =~= x.push(a.last()));
        assert(b =~= y.push(b.last()));
    }
}

/// What a scan finds after one of its own rows is what follows that row.
proof fn lemma_scan_goes_on(s: StoreModel, after: u64, high: u64, count: int)
    requires
        numbering::numbered(s.history),
        0 < count <= page::scan(s, after, high).len(),
    ensures
        page::scan(s, page::scan(s, after, high)[count - 1].change, high) == page::scan(s, after, high).skip(
            count,
        ),
{
    let rows = page::scan(s, after, high);
    let next = rows[count - 1].change;
    let later = page::scan(s, next, high);
    let rest = rows.skip(count);
    let all = page::values(s.history.entries);
    lemma_scan(s, after, high);
    lemma_scan(s, next, high);
    assert forall|i: int, j: int| 0 <= i < j < rest.len() implies (#[trigger] rest[i]).change < (
    #[trigger] rest[j]).change by {
        assert(rows[i + count].change < rows[j + count].change);
    }
    assert forall|e: EntryModel| later.contains(e) implies rest.contains(e) by {
        let i = choose|i: int| 0 <= i < later.len() && later[i] == e;
        assert(all.contains(later[i]));
        let k = choose|k: int| 0 <= k < all.len() && all[k] == e;
        assert(s.history.entries[k].1 == e);
        assert(after < rows[count - 1].change);
        assert(rows.contains(e));
        let m = choose|m: int| 0 <= m < rows.len() && rows[m] == e;
        if m < count {
            if m < count - 1 {
                assert(rows[m].change < rows[count - 1].change);
            }
            assert(false);
        }
        assert(rest[m - count] == e);
    }
    assert forall|e: EntryModel| rest.contains(e) implies later.contains(e) by {
        let i = choose|i: int| 0 <= i < rest.len() && rest[i] == e;
        assert(rows[i + count] == e);
        assert(rows[count - 1].change < rows[i + count].change);
        assert(all.contains(rows[i + count]));
        let k = choose|k: int| 0 <= k < all.len() && all[k] == e;
        assert(s.history.entries[k].1 == e);
    }
    lemma_climbing_same(later, rest);
}

/// What the pages give, one after the other, from a cursor on up to a boundary.
pub open spec fn followed(s: StoreModel, cursor: u64, high: u64) -> Outcome<Seq<PublishedModel>>
    decreases high - cursor,
{
    match page::page_outcome(s, s.history.epoch, cursor, Some(high)) {
        Err(e) => Err(e),
        Ok(page) => if page.complete || page.next <= cursor || page.next > high {
            Ok(page.entries)
        } else {
            match followed(s, page.next, high) {
                Err(e) => Err(e),
                Ok(rest) => Ok(page.entries + rest),
            }
        },
    }
}

/// What a machine that knows nothing yet gets by following the pages to the end:
/// the first page sets the boundary, and each next one starts where the last ended.
pub open spec fn followed_from_start(s: StoreModel) -> Outcome<Seq<PublishedModel>> {
    match page::page_outcome(s, Seq::empty(), 0, None) {
        Err(e) => Err(e),
        Ok(page) => if page.complete {
            Ok(page.entries)
        } else {
            match followed(s, page.next, page.high) {
                Err(e) => Err(e),
                Ok(rest) => Ok(page.entries + rest),
            }
        },
    }
}

/// No record is too large for a page.
pub open spec fn every_record_fits(s: StoreModel) -> bool {
    forall|k: int|
        0 <= k < s.history.entries.len() ==> page::published_size(
            merge::exported(s, (#[trigger] s.history.entries[k]).1),
        ) <= page::PAGE_BYTES
}

/// The entries of a scan, as they are given out.
pub open spec fn given_out(s: StoreModel, rows: Seq<EntryModel>) -> Seq<PublishedModel> {
    Seq::new(rows.len(), |i: int| merge::exported(s, rows[i]))
}

proof fn lemma_fits(s: StoreModel, rows: Seq<EntryModel>, i: int, size: nat)
    requires
        every_record_fits(s),
        forall|k: int| 0 <= k < rows.len() ==> page::values(s.history.entries).contains(
            #[trigger] rows[k],
        ),
        0 <= i <= rows.len(),
    ensures
        page::rows_that_fit(s, rows, i, size) is Ok,
    decreases rows.len() - i,
{
    if i < rows.len() {
        let all = page::values(s.history.entries);
        assert(all.contains(rows[i]));
        let k = choose|k: int| 0 <= k < all.len() && all[k] == rows[i];
        assert(s.history.entries[k].1 == rows[i]);
        let bytes = page::published_size(merge::exported(s, rows[i]));
        if !(i == PAGE_ROWS || size + bytes > page::PAGE_BYTES) {
            lemma_fits(s, rows, i + 1, size + bytes);
        }
    }
}

proof fn lemma_given_out(s: StoreModel, rows: Seq<EntryModel>, count: int)
    requires
        0 <= count <= rows.len(),
    ensures
        given_out(s, rows) == given_out(s, rows.take(count)) + given_out(s, rows.skip(count)),
{
    assert(given_out(s, rows) =~= given_out(s, rows.take(count)) + given_out(s, rows.skip(count)));
}

/// A page holds the first rows of its scan, and ends where the rest begins.
proof fn lemma_page_starts_scan(
    s: StoreModel,
    epoch: Seq<char>,
    cursor: u64,
    high: Option<u64>,
    from: u64,
    limit: u64,
) -> (count: int)
    requires
        numbering::numbered(s.history),
        every_record_fits(s),
        from <= limit,
        from == if epoch != s.history.epoch || cursor > s.history.clock {
            0
        } else {
            cursor
        },
        limit == if epoch != s.history.epoch || cursor > s.history.clock || high is None || high->0
            > s.history.clock {
            s.history.clock
        } else {
            high->0
        },
    ensures
        0 <= count <= page::scan(s, from, limit).len(),
        page::page_outcome(s, epoch, cursor, high) matches Ok(page) && page.entries == given_out(
            s,
            page::scan(s, from, limit).take(count),
        ) && page.entries.len() <= PAGE_ROWS && page.high == limit && page.complete == (count
            == page::scan(s, from, limit).len()) && (!page.complete ==> count > 0 && page.next
            == page::scan(s, from, limit)[count - 1].change && from < page.next <= limit),
{
    let rows = page::scan(s, from, limit);
    assert(page::rows_that_fit(s, rows, 0, 0) is Ok) by {
        lemma_scan(s, from, limit);
        lemma_fits(s, rows, 0, 0);
    }
    lemma_fit_bounds(s, rows, 0, 0);
    let count = page::rows_that_fit(s, rows, 0, 0)->Ok_0;
    let page = page::page_outcome(s, epoch, cursor, high)->Ok_0;
    assert(page.entries =~= given_out(s, rows.take(count)));
    if count < rows.len() {
        assert(from < rows[count - 1].change <= limit) by {
            lemma_scan(s, from, limit);
        }
    }
    count
}

/// Following the pages from any cursor ends, and gives every later entry once, in
/// the order of change.
pub proof fn law_pages_go_on_to_the_end(s: StoreModel, cursor: u64, high: u64)
    requires
        numbering::numbered(s.history),
        every_record_fits(s),
        cursor <= high <= s.history.clock,
    ensures
        followed(s, cursor, high) == Ok::<Seq<PublishedModel>, ErrorModel>(
            given_out(s, page::scan(s, cursor, high)),
        ),
        page::page_outcome(s, s.history.epoch, cursor, Some(high)) matches Ok(page)
            && page.entries.len() <= PAGE_ROWS && (!page.complete ==> cursor < page.next <= high),
    decreases high - cursor,
{
    let rows = page::scan(s, cursor, high);
    let count = lemma_page_starts_scan(s, s.history.epoch, cursor, Some(high), cursor, high);
    let page = page::page_outcome(s, s.history.epoch, cursor, Some(high))->Ok_0;
    if page.complete {
        assert(rows.take(count) =~= rows);
    } else {
        law_pages_go_on_to_the_end(s, page.next, high);
        lemma_scan_goes_on(s, cursor, high, count);
        lemma_given_out(s, rows, count);
    }
}

proof fn lemma_followed_from_start(s: StoreModel)
    requires
        numbering::numbered(s.history),
        every_record_fits(s),
        s.history.epoch.len() > 0,
    ensures
        followed_from_start(s) == Ok::<Seq<PublishedModel>, ErrorModel>(
            given_out(s, page::scan(s, 0, s.history.clock)),
        ),
{
    let high = s.history.clock;
    let rows = page::scan(s, 0, high);
    let count = lemma_page_starts_scan(s, Seq::empty(), 0, None, 0, high);
    let page = page::page_outcome(s, Seq::empty(), 0, None)->Ok_0;
    if page.complete {
        assert(rows.take(count) =~= rows);
    } else {
        law_pages_go_on_to_the_end(s, page.next, high);
        lemma_scan_goes_on(s, 0, high, count);
        lemma_given_out(s, rows, count);
    }
}

proof fn lemma_scan_of_all(s: StoreModel)
    requires
        numbering::numbered(s.history),
    ensures
        climbing(page::scan(s, 0, s.history.clock)),
        forall|k: int|
            0 <= k < s.history.entries.len() && (#[trigger] s.history.entries[k]).1.change > 0
                ==> page::scan(s, 0, s.history.clock).contains(s.history.entries[k].1),
        forall|i: int|
            0 <= i < page::scan(s, 0, s.history.clock).len() ==> page::values(
                s.history.entries,
            ).contains(#[trigger] page::scan(s, 0, s.history.clock)[i]),
{
    let rows = page::scan(s, 0, s.history.clock);
    lemma_scan(s, 0, s.history.clock);
    lemma_values_apart(s.history);
    assert forall|k: int|
        0 <= k < s.history.entries.len() && (#[trigger] s.history.entries[k]).1.change
            > 0 implies rows.contains(s.history.entries[k].1) by {
        assert(page::values(s.history.entries)[k] == s.history.entries[k].1);
    }
}

/// A machine that follows the pages from the start to the end gets every entry of
/// the history, each exactly once, in the order of change.
pub proof fn law_pages_give_everything(s: StoreModel)
    requires
        numbering::numbered(s.history),
        every_record_fits(s),
        s.history.epoch.len() > 0,
    ensures
        followed_from_start(s) == Ok::<Seq<PublishedModel>, ErrorModel>(
            given_out(s, page::scan(s, 0, s.history.clock)),
        ),
        climbing(page::scan(s, 0, s.history.clock)),
        forall|k: int|
            0 <= k < s.history.entries.len() && (#[trigger] s.history.entries[k]).1.change > 0
                ==> page::scan(s, 0, s.history.clock).contains(s.history.entries[k].1),
        forall|i: int|
            0 <= i < page::scan(s, 0, s.history.clock).len() ==> page::values(
                s.history.entries,
            ).contains(#[trigger] page::scan(s, 0, s.history.clock)[i]),
{
    lemma_followed_from_start(s);
    lemma_scan_of_all(s);
}

/// What signs an invocation never signs a fact.
pub proof fn law_signatures_have_a_purpose(i: InvocationModel, f: FactModel)
    ensures
        wire::invocation_message(i) != wire::fact_message(f),
{
    let head = "Clix history v1\0"@;
    let a = head + "invocation"@ + "\0"@ + wire::invocation_json(i);
    let b = head + "fact"@ + "\0"@ + wire::fact_json(f);
    reveal_strlit("invocation");
    reveal_strlit("fact");
    assert(a[head.len() as int] == 'i');
    assert(b[head.len() as int] == 'f');
    if wire::invocation_message(i) == wire::fact_message(f) {
        text::lemma_utf8_injective(a, b);
    }
}

} // verus!

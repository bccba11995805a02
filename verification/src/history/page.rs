//! Handing history on in pages, and following another machine's pages.

use vstd::prelude::*;
use vstd::string::*;

use crate::data::Data;
use crate::error;
use crate::error::{protocol, ErrorModel, Outcome, Result};
use crate::history::merge;
use crate::history::merge::{export_entry, ingest};
use crate::history::record::{
    CapturedOutput, CapturedOutputModel, Certificate, CertificateModel, Entry, EntryModel,
    HistoryModel, Page, PageModel, Progress, ProgressModel, Published, PublishedModel, Record,
    RecordModel, SignedFact, SignedFactModel,
};
use crate::history::wire;
use crate::history::wire::{fact_text, invocation_text, known_key};
use crate::json;
use crate::json::json_bytes;
use crate::order;
use crate::order::{sort, Ranked};
use crate::search;
use crate::store::{Store, StoreModel};
use crate::table;
use crate::text;
use crate::text::{decimal_text, owned, text_bytes, text_same};

verus! {

pub const PAGE_ROWS: usize = 16;

pub const PAGE_BYTES: usize = 48 * 1024 * 1024;

pub open spec fn signed_json(signed: Option<SignedFactModel>) -> Seq<char> {
    match signed {
        Some(s) => "{\"fact\":"@ + wire::fact_json(s.fact) + ",\"signature\":"@ + json::json_list(
            json::byte_items(s.signature),
        ) + "}"@,
        None => "null"@,
    }
}

pub open spec fn record_json(record: RecordModel) -> Seq<char> {
    "{\"certificate\":{\"invocation\":"@ + wire::invocation_json(record.certificate.invocation)
        + ",\"signature\":"@ + json::json_list(json::byte_items(record.certificate.signature))
        + "},\"origin\":"@ + signed_json(record.origin) + ",\"runner\":"@ + signed_json(
        record.runner,
    ) + "}"@
}

pub open spec fn output_bytes_json(output: Option<CapturedOutputModel>) -> Seq<char> {
    match output {
        Some(o) => "{\"stdout\":"@ + json::json_list(json::byte_items(o.stdout)) + ",\"stderr\":"@ + json::json_list(
            json::byte_items(o.stderr),
        ) + "}"@,
        None => "null"@,
    }
}

pub open spec fn published_json(p: PublishedModel) -> Seq<char> {
    "{\"record\":"@ + record_json(p.record) + ",\"output\":"@ + output_bytes_json(p.output)
        + ",\"change\":"@ + text::decimal(p.change as nat) + "}"@
}

/// How many bytes a published record takes in a page.
pub open spec fn published_size(p: PublishedModel) -> nat {
    text::byte_len(published_json(p))
}

fn signed_text(signed: &Option<SignedFact>) -> (json: String)
    ensures
        json@ == signed_json(signed.deep_view()),
{
    match signed {
        Some(s) => {
            let mut json = owned("{\"fact\":");
            json.append(fact_text(&s.fact).as_str());
            json.append(",\"signature\":");
            json.append(json_bytes(&s.signature).as_str());
            json.append("}");
            json
        },
        None => owned("null"),
    }
}

fn record_text(record: &Record) -> (json: String)
    ensures
        json@ == record_json(record@),
{
    let mut json = owned("{\"certificate\":{\"invocation\":");
    json.append(invocation_text(&record.certificate.invocation).as_str());
    json.append(",\"signature\":");
    json.append(json_bytes(&record.certificate.signature).as_str());
    json.append("},\"origin\":");
    json.append(signed_text(&record.origin).as_str());
    json.append(",\"runner\":");
    json.append(signed_text(&record.runner).as_str());
    json.append("}");
    json
}

fn output_bytes_text(output: &Option<CapturedOutput>) -> (json: String)
    ensures
        json@ == output_bytes_json(output.deep_view()),
{
    match output {
        Some(o) => {
            let mut json = owned("{\"stdout\":");
            json.append(json_bytes(&o.stdout).as_str());
            json.append(",\"stderr\":");
            json.append(json_bytes(&o.stderr).as_str());
            json.append("}");
            json
        },
        None => owned("null"),
    }
}

/// A published record as the mesh carries it.
pub fn published_text(p: &Published) -> (json: String)
    ensures
        json@ == published_json(p@),
{
    let mut json = owned("{\"record\":");
    json.append(record_text(&p.record).as_str());
    json.append(",\"output\":");
    json.append(output_bytes_text(&p.output).as_str());
    json.append(",\"change\":");
    json.append(decimal_text(p.change).as_str());
    json.append("}");
    json
}

impl<'a> Ranked for &'a Entry {
    open spec fn before(a: EntryModel, b: EntryModel) -> bool {
        a.change < b.change
    }

    fn is_before(&self, other: &Self) -> (yes: bool) {
        self.change < other.change
    }
}

/// The values of a table, in key order.
pub open spec fn values<T>(rows: Seq<(Seq<char>, T)>) -> Seq<T> {
    Seq::new(rows.len(), |i: int| rows[i].1)
}

/// Entries that changed after one point and no later than another.
pub open spec fn changed_between(after: u64, high: u64) -> spec_fn(EntryModel) -> bool {
    |e: EntryModel| after < e.change && e.change <= high
}

pub open spec fn by_change() -> spec_fn(EntryModel, EntryModel) -> bool {
    |a: EntryModel, b: EntryModel| a.change < b.change
}

/// The entries of a scan, in the order of their last change.
pub open spec fn scan(s: StoreModel, after: u64, high: u64) -> Seq<EntryModel> {
    order::sorted(search::kept(values(s.history.entries), changed_between(after, high)), by_change())
}

/// How many rows of a scan fit into one page, from `i` on with `size` bytes used.
pub open spec fn rows_that_fit(s: StoreModel, rows: Seq<EntryModel>, i: int, size: nat) -> Outcome<
    int,
>
    decreases rows.len() - i,
{
    if i >= rows.len() {
        Ok(i)
    } else {
        let bytes = published_size(merge::exported(s, rows[i]));
        if bytes > PAGE_BYTES {
            Err(ErrorModel::Protocol("one history record exceeds the page budget"@))
        } else if i == PAGE_ROWS || size + bytes > PAGE_BYTES {
            Ok(i)
        } else {
            rows_that_fit(s, rows, i + 1, size + bytes)
        }
    }
}

pub open spec fn page_outcome(s: StoreModel, epoch: Seq<char>, after: u64, high: Option<u64>) -> Outcome<
    PageModel,
> {
    let reset = epoch != s.history.epoch || after > s.history.clock;
    let from = if reset {
        0
    } else {
        after
    };
    let limit = if reset || high is None || high->0 > s.history.clock {
        s.history.clock
    } else {
        high->0
    };
    if limit < from {
        Err(ErrorModel::Protocol("history cursor is beyond the scan boundary"@))
    } else {
        let rows = scan(s, from, limit);
        match rows_that_fit(s, rows, 0, 0) {
            Err(e) => Err(e),
            Ok(count) => Ok(
                PageModel {
                    epoch: s.history.epoch,
                    reset,
                    high: limit,
                    next: if count == rows.len() {
                        limit
                    } else if count > 0 {
                        rows[count - 1].change
                    } else {
                        from
                    },
                    complete: count == rows.len(),
                    entries: Seq::new(count as nat, |i: int| merge::exported(s, rows[i])),
                },
            ),
        }
    }
}

fn scan_rows<'a>(store: &'a Store, after: u64, high: u64) -> (rows: Vec<&'a Entry>)
    ensures
        rows.deep_view() == scan(store@, after, high),
{
    let ghost entries = store@.history.entries;
    let ghost all = values(entries);
    let ghost test = changed_between(after, high);
    let mut rows: Vec<&'a Entry> = Vec::new();
    let mut i: usize = 0;
    proof {
        assert(all.take(0) =~= Seq::<EntryModel>::empty());
        assert(rows.deep_view() =~= Seq::<EntryModel>::empty());
    }
    while i < store.history.entries.len()
        invariant
            i <= entries.len(),
            entries == store@.history.entries,
            all == values(entries),
            test == changed_between(after, high),
            rows.deep_view() == search::kept(all.take(i as int), test),
        decreases entries.len() - i,
    {
        let entry = store.history.entries.value_at(i);
        assert(all[i as int] == entry@);
        proof {
            search::lemma_kept_step(all, test, i as int);
        }
        let ghost before = rows;
        if after < entry.change && entry.change <= high {
            rows.push(entry);
            assert(rows.deep_view() =~= before.deep_view().push(entry@));
        }
        i += 1;
    }
    assert(all.take(i as int) =~= all);
    assert(order::rank_order::<&'a Entry>() =~= by_change());
    sort(rows)
}

/// One page of the changes after a cursor. A cursor of another epoch, or from
/// the future, starts the scan over.
pub fn page(store: &Store, epoch: &str, after: u64, high: Option<u64>) -> (result: Result<Page>)
    ensures
        error::outcome(result) == page_outcome(store@, epoch@, after, high),
{
    let clock: u64 = store.history.clock;
    let reset: bool = !text_same(epoch, &store.history.epoch) || after > clock;
    let from: u64 = if reset {
        0
    } else {
        after
    };
    let limit: u64 = match high {
        Some(h) => if reset || h > clock {
            clock
        } else {
            h
        },
        None => clock,
    };
    if limit < from {
        return Err(protocol("history cursor is beyond the scan boundary"));
    }
    let rows = scan_rows(store, from, limit);
    let ghost view = rows.deep_view();
    let mut entries: Vec<Published> = Vec::new();
    let mut size: usize = 0;
    let mut next: u64 = from;
    let mut i: usize = 0;
    let mut full: bool = false;
    while i < rows.len() && !full
        invariant
            i <= rows.len(),
            view == rows.deep_view(),
            view == scan(store@, from, limit),
            size <= PAGE_BYTES,
            entries.len() == i,
            i <= PAGE_ROWS,
            forall|j: int| 0 <= j < i ==> (#[trigger] entries@[j])@ == merge::exported(store@, view[j]),
            next == if i > 0 {
                view[i - 1].change
            } else {
                from
            },
            full ==> rows_that_fit(store@, view, 0, 0) == Ok::<int, ErrorModel>(i as int),
            full ==> i < rows.len(),
            !full ==> rows_that_fit(store@, view, 0, 0) == rows_that_fit(
                store@,
                view,
                i as int,
                size as nat,
            ),
            from == (if reset {
                0
            } else {
                after
            }),
            reset == (epoch@ != store@.history.epoch || after > store@.history.clock),
            limit == (if reset || high is None || high->0 > store@.history.clock {
                store@.history.clock
            } else {
                high->0
            }),
            limit >= from,
        decreases
            rows.len() - i,
            if full {
                0int
            } else {
                1int
            },
    {
        assert(view[i as int] == rows@[i as int]@);
        let p = export_entry(store, rows[i]);
        let bytes: usize = text_bytes(published_text(&p).as_str());
        if bytes > PAGE_BYTES {
            return Err(protocol("one history record exceeds the page budget"));
        }
        if i == PAGE_ROWS || size + bytes > PAGE_BYTES {
            full = true;
        } else {
            size += bytes;
            next = rows[i].change;
            entries.push(p);
            i += 1;
        }
    }
    let complete: bool = i == rows.len();
    if complete {
        next = limit;
    }
    let page = Page {
        epoch: store.history.epoch.dup(),
        reset,
        high: limit,
        next,
        complete,
        entries,
    };
    proof {
        assert(page.entries.deep_view() =~= Seq::new(i as nat, |j: int| merge::exported(store@, view[j])));
    }
    Ok(page)
}

/// Progress before anything was read.
pub open spec fn no_progress() -> ProgressModel {
    ProgressModel {
        epoch: ""@,
        cursor: 0,
        high: 0,
        complete: false,
        unknown_authors: false,
        last_contact: None,
        error: None,
    }
}

pub open spec fn progress_of(s: StoreModel, peer: Seq<char>) -> ProgressModel {
    match table::lookup(s.history.peers, peer) {
        Some(progress) => progress,
        None => no_progress(),
    }
}

pub fn peer_progress(store: &Store, peer: &str) -> (progress: Progress)
    ensures
        progress@ == progress_of(store@, peer@),
{
    match store.history.peers.get(peer) {
        Some(progress) => progress.dup(),
        None => Progress {
            epoch: owned(""),
            cursor: 0,
            high: 0,
            complete: false,
            unknown_authors: false,
            last_contact: None,
            error: None,
        },
    }
}

/// The boundary to ask for: the one of an unfinished scan, else none.
pub fn scan_boundary(progress: &Progress) -> (high: Option<u64>)
    ensures
        high == if !progress@.complete && progress@.epoch.len() > 0 {
            Some(progress@.high)
        } else {
            None
        },
{
    if !progress.complete && !progress.epoch.as_str().is_empty() {
        Some(progress.high)
    } else {
        None
    }
}

/// The changes from `i` on ascend above `previous` and stay within `next`.
pub open spec fn ascends(entries: Seq<PublishedModel>, i: int, previous: u64, next: u64) -> bool
    decreases entries.len() - i,
{
    i >= entries.len() || (previous < entries[i].change && entries[i].change <= next && ascends(
        entries,
        i + 1,
        entries[i].change,
        next,
    ))
}

pub open spec fn page_check(progress: ProgressModel, page: PageModel) -> Outcome<()> {
    if page.entries.len() > PAGE_ROWS || page.next > page.high || page.epoch.len() == 0 || (
    !page.reset && page.epoch != progress.epoch) || (!page.reset && page.next < progress.cursor)
        || (page.complete && page.next != page.high) {
        Err(ErrorModel::Protocol("invalid history page boundary"@))
    } else if !ascends(
        page.entries,
        0,
        if page.reset {
            0
        } else {
            progress.cursor
        },
        page.next,
    ) {
        Err(ErrorModel::Protocol("history page is not ordered"@))
    } else {
        Ok(())
    }
}

/// Whether a page continues the scan that it was asked for.
pub fn check_page(progress: &Progress, page: &Page) -> (result: Result<()>)
    ensures
        error::outcome(result) == page_check(progress@, page@),
{
    if page.entries.len() > PAGE_ROWS || page.next > page.high || page.epoch.as_str().is_empty()
        || (!page.reset && !page.epoch.same(&progress.epoch)) || (!page.reset && page.next
        < progress.cursor) || (page.complete && page.next != page.high) {
        return Err(protocol("invalid history page boundary"));
    }
    let start: u64 = if page.reset {
        0
    } else {
        progress.cursor
    };
    let ghost entries = page@.entries;
    let mut previous: u64 = start;
    let mut i: usize = 0;
    while i < page.entries.len()
        invariant
            i <= page.entries.len(),
            entries == page@.entries,
            ascends(entries, 0, start, page.next) == ascends(
                entries,
                i as int,
                previous,
                page.next,
            ),
            start == (if page.reset {
                0
            } else {
                progress.cursor
            }),
            !(page@.entries.len() > PAGE_ROWS || page.next > page.high || page@.epoch.len() == 0
                || (!page.reset && page@.epoch != progress@.epoch) || (!page.reset && page.next
                < progress.cursor) || (page.complete && page.next != page.high)),
        decreases page.entries.len() - i,
    {
        let change: u64 = page.entries[i].change;
        assert(entries[i as int] == page.entries@[i as int]@);
        if change <= previous || change > page.next {
            return Err(protocol("history page is not ordered"));
        }
        previous = change;
        i += 1;
    }
    Ok(())
}

/// Whether this machine is paired with whoever must have signed.
pub open spec fn authors_are_known(s: StoreModel, c: CertificateModel) -> bool {
    match c.invocation.legacy_observer {
        Some(observer) => wire::known_key_outcome(s, observer) is Ok,
        None => wire::known_key_outcome(s, c.invocation.from) is Ok && wire::known_key_outcome(
            s,
            c.invocation.body,
        ) is Ok,
    }
}

pub fn authors_known(store: &Store, c: &Certificate) -> (yes: bool)
    ensures
        yes == authors_are_known(store@, c@),
{
    match &c.invocation.legacy_observer {
        Some(observer) => known_key(store, observer).is_ok(),
        None => known_key(store, &c.invocation.from).is_ok() && known_key(
            store,
            &c.invocation.body,
        ).is_ok(),
    }
}

/// What to do with a page once it has arrived.
#[derive(Debug, Clone, Copy, PartialEq, Eq, Structural)]
pub enum PageStep {
    /// Trust or progress moved on meanwhile: ask again.
    Retry,
    /// Nothing in it needs saving.
    Nothing,
    /// Merge it, durably.
    Merge,
}

pub open spec fn page_step_of(
    s: StoreModel,
    peer: Seq<char>,
    progress: ProgressModel,
    trust: Seq<char>,
    page: PageModel,
) -> PageStep {
    let current = progress_of(s, peer);
    if s.history.trust != trust || current.epoch != progress.epoch || current.cursor
        != progress.cursor || current.high != progress.high {
        PageStep::Retry
    } else if page.reset || page.next != progress.cursor || page.entries.len() > 0 || page.complete
        != progress.complete || page.high != progress.high {
        PageStep::Merge
    } else {
        PageStep::Nothing
    }
}

pub fn page_step(store: &Store, peer: &str, progress: &Progress, trust: &str, page: &Page) -> (step:
    PageStep)
    ensures
        step == page_step_of(store@, peer@, progress@, trust@, page@),
{
    let current = peer_progress(store, peer);
    if !text_same(&store.history.trust, trust) || !current.epoch.same(&progress.epoch)
        || current.cursor != progress.cursor || current.high != progress.high {
        return PageStep::Retry;
    }
    if page.reset || page.next != progress.cursor || page.entries.len() > 0 || page.complete
        != progress.complete || page.high != progress.high {
        PageStep::Merge
    } else {
        PageStep::Nothing
    }
}

/// The rows from `i` on, taken in where their authors are known.
pub open spec fn rows_merged(s: StoreModel, entries: Seq<PublishedModel>, i: int, unknown: bool) -> (
    StoreModel,
    Outcome<bool>,
)
    decreases entries.len() - i,
{
    if i >= entries.len() {
        (s, Ok(unknown))
    } else if !authors_are_known(s, entries[i].record.certificate) {
        rows_merged(s, entries, i + 1, true)
    } else {
        let (next, step) = merge::ingested(s, entries[i]);
        match step {
            Err(e) => (next, Err(e)),
            Ok(_) => rows_merged(next, entries, i + 1, unknown),
        }
    }
}

/// History with a page taken in and the cursor moved, in one change.
pub open spec fn page_merged(
    s: StoreModel,
    peer: Seq<char>,
    progress: ProgressModel,
    page: PageModel,
) -> (StoreModel, Outcome<()>) {
    let (next, step) = rows_merged(
        s,
        page.entries,
        0,
        !page.reset && progress.unknown_authors,
    );
    match step {
        Err(e) => (next, Err(e)),
        Ok(unknown) => (
            StoreModel {
                history: HistoryModel {
                    peers: table::stored(
                        next.history.peers,
                        peer,
                        ProgressModel {
                            epoch: page.epoch,
                            cursor: page.next,
                            high: page.high,
                            complete: page.complete,
                            unknown_authors: unknown,
                            last_contact: None,
                            error: None,
                        },
                    ),
                    ..next.history
                },
                ..next
            },
            Ok(()),
        ),
    }
}

/// Take in a checked page. Records by unpaired authors are passed over and remembered.
pub fn merge_page(store: &mut Store, peer: &str, progress: &Progress, page: &Page) -> (result:
    Result<()>)
    ensures
        (final(store)@, error::outcome(result)) == page_merged(old(store)@, peer@, progress@, page@),
{
    let ghost start = store@;
    let ghost entries = page@.entries;
    let first_unknown: bool = !page.reset && progress.unknown_authors;
    let mut unknown: bool = first_unknown;
    let mut i: usize = 0;
    while i < page.entries.len()
        invariant
            i <= page.entries.len(),
            start == old(store)@,
            entries == page@.entries,
            first_unknown == (!page@.reset && progress@.unknown_authors),
            rows_merged(start, entries, 0, first_unknown) == rows_merged(
                store@,
                entries,
                i as int,
                unknown,
            ),
        decreases page.entries.len() - i,
    {
        assert(entries[i as int] == page.entries@[i as int]@);
        if authors_known(store, &page.entries[i].record.certificate) {
            match ingest(store, &page.entries[i]) {
                Ok(_) => {},
                Err(e) => return Err(e),
            }
        } else {
            unknown = true;
        }
        i += 1;
    }
    let progress = Progress {
        epoch: page.epoch.dup(),
        cursor: page.next,
        high: page.high,
        complete: page.complete,
        unknown_authors: unknown,
        last_contact: None,
        error: None,
    };
    store.history.peers.put(owned(peer), progress);
    Ok(())
}

/// Note, in memory only, that a machine answered.
pub fn contacted(store: &mut Store, peer: &str, now: u64)
    ensures
        final(store)@ == (StoreModel {
            history: HistoryModel {
                peers: table::stored(
                    old(store)@.history.peers,
                    peer@,
                    ProgressModel {
                        last_contact: Some(now),
                        error: None,
                        ..progress_of(old(store)@, peer@)
                    },
                ),
                ..old(store)@.history
            },
            ..old(store)@
        }),
{
    let mut progress = peer_progress(store, peer);
    progress.last_contact = Some(now);
    progress.error = None;
    store.history.peers.put(owned(peer), progress);
}

} // verus!
